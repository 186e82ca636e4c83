//! The driver script of an animation: a Lua fragment that steps an object
//! through the tiles of its sprite sheet and starts over after the last
//! frame.

use vstd::prelude::*;
use vstd::string::StringExecFns;
use crate::decimal::{decimal, push_decimal};

verus! {

/// The text of the driver script for the object `center_id`, whose sheet
/// has `columns` by `rows` tiles and whose last frame is at
/// `(last_x, last_y)`. `anim_speed` is the time between two frames as the
/// script is to show it. Each name and number is put into the fixed text
/// as it is.
pub open spec fn lua_script(
    center_id: Seq<char>,
    columns: nat,
    rows: nat,
    last_x: nat,
    last_y: nat,
    anim_speed: Seq<char>,
) -> Seq<char> {
    Seq::<char>::empty()
        + "local "@
        + center_id
        + "_dt = 0\n\nlocal g_up = Game.update\nfunction Game:update(dt)\n    g_up(self, dt)\n\n    "@
        + center_id
        + "_dt = "@
        + center_id
        + "_dt + dt\n\n    if G.P_CENTERS and G.P_CENTERS."@
        + center_id
        + " and "@
        + center_id
        + "_dt > "@
        + anim_speed
        + " then\n        "@
        + center_id
        + "_dt = 0\n\n        local "@
        + center_id
        + "_obj = G.P_CENTERS."@
        + center_id
        + "\n\n        if "@
        + center_id
        + "_obj.pos.x == "@
        + decimal(last_x)
        + " and "@
        + center_id
        + "_obj.pos.y == "@
        + decimal(last_y)
        + " then\n            "@
        + center_id
        + "_obj.pos.x = 0\n            "@
        + center_id
        + "_obj.pos.y = 0\n        elseif "@
        + center_id
        + "_obj.pos.x < "@
        + decimal(columns)
        + " then\n            "@
        + center_id
        + "_obj.pos.x = "@
        + center_id
        + "_obj.pos.x + 1\n        elseif "@
        + center_id
        + "_obj.pos.y < "@
        + decimal(rows)
        + " then\n            "@
        + center_id
        + "_obj.pos.x = 0\n            "@
        + center_id
        + "_obj.pos.y = "@
        + center_id
        + "_obj.pos.y + 1\n        end\n    end\nend"@
}

/// Writes the driver script for the object `center_id`: every `anim_speed`
/// it moves the object one tile on, row by row, and back to the first tile
/// once the object is at `last_frame_pos`.
pub fn gen_lua_code_for_object(
    center_id: &str,
    columns: u32,
    rows: u32,
    last_frame_pos: (u32, u32),
    anim_speed: &str,
) -> (script: String)
    ensures
        script@ == lua_script(
            center_id@,
            columns as nat,
            rows as nat,
            last_frame_pos.0 as nat,
            last_frame_pos.1 as nat,
            anim_speed@,
        ),
{
    let mut out = String::new();
    out.append("local ");
    out.append(center_id);
    out.append("_dt = 0\n\nlocal g_up = Game.update\nfunction Game:update(dt)\n    g_up(self, dt)\n\n    ");
    out.append(center_id);
    out.append("_dt = ");
    out.append(center_id);
    out.append("_dt + dt\n\n    if G.P_CENTERS and G.P_CENTERS.");
    out.append(center_id);
    out.append(" and ");
    out.append(center_id);
    out.append("_dt > ");
    out.append(anim_speed);
    out.append(" then\n        ");
    out.append(center_id);
    out.append("_dt = 0\n\n        local ");
    out.append(center_id);
    out.append("_obj = G.P_CENTERS.");
    out.append(center_id);
    out.append("\n\n        if ");
    out.append(center_id);
    out.append("_obj.pos.x == ");
    push_decimal(&mut out, last_frame_pos.0 as u64);
    out.append(" and ");
    out.append(center_id);
    out.append("_obj.pos.y == ");
    push_decimal(&mut out, last_frame_pos.1 as u64);
    out.append(" then\n            ");
    out.append(center_id);
    out.append("_obj.pos.x = 0\n            ");
    out.append(center_id);
    out.append("_obj.pos.y = 0\n        elseif ");
    out.append(center_id);
    out.append("_obj.pos.x < ");
    push_decimal(&mut out, columns as u64);
    out.append(" then\n            ");
    out.append(center_id);
    out.append("_obj.pos.x = ");
    out.append(center_id);
    out.append("_obj.pos.x + 1\n        elseif ");
    out.append(center_id);
    out.append("_obj.pos.y < ");
    push_decimal(&mut out, rows as u64);
    out.append(" then\n            ");
    out.append(center_id);
    out.append("_obj.pos.x = 0\n            ");
    out.append(center_id);
    out.append("_obj.pos.y = ");
    out.append(center_id);
    out.append("_obj.pos.y + 1\n        end\n    end\nend");
    out
}

} // verus!
