//! What the library settles about the transcoding step, which turns the
//! video into an intermediate animation: the filter handed to the
//! transcoder, the name of the intermediate file, and how the transcoder's
//! exit status is read.

use rand::Rng;
use vstd::prelude::*;
use vstd::string::StringExecFns;
use crate::decimal::{decimal, push_decimal, push_signed_decimal, signed_decimal};
use crate::error::SheetError;

verus! {

/// The filter that makes the transcoder sample `fps` frames a second, scale
/// them to `width` by `height` (a negative number keeps the aspect ratio)
/// and build the animation with a palette of its own.
pub open spec fn transcode_filter_text(fps: u32, width: i64, height: i64) -> Seq<char> {
    Seq::<char>::empty() + "fps="@ + decimal(fps as nat) + ",scale="@ + signed_decimal(
        width as int,
    ) + ":"@ + signed_decimal(height as int)
        + ":flags=lanczos,split[s0][s1];[s0]palettegen[p];[s1][p]paletteuse"@
}

/// The filter argument for the transcoder.
pub fn transcode_filter(fps: u32, scale: (i64, i64)) -> (filter: String)
    ensures
        filter@ == transcode_filter_text(fps, scale.0, scale.1),
{
    let mut out = String::new();
    out.append("fps=");
    push_decimal(&mut out, fps as u64);
    out.append(",scale=");
    push_signed_decimal(&mut out, scale.0);
    out.append(":");
    push_signed_decimal(&mut out, scale.1);
    out.append(":flags=lanczos,split[s0][s1];[s0]palettegen[p];[s1][p]paletteuse");
    out
}

/// Reads the transcoder's exit status: anything but success is a failure of
/// the transcoding step.
pub fn transcode_outcome(exited_with_success: bool) -> (res: Result<(), SheetError>)
    ensures
        exited_with_success <==> res is Ok,
        res matches Err(e) ==> e == SheetError::TranscodeFailure,
{
    if exited_with_success {
        Ok(())
    } else {
        Err(SheetError::TranscodeFailure)
    }
}

/// The name of the intermediate file that carries the suffix `id`.
pub open spec fn temp_gif_name_text(id: u64) -> Seq<char> {
    Seq::<char>::empty() + "temp-gif_out-"@ + decimal(id as nat) + ".gif"@
}

/// The name of the intermediate file that carries the suffix `id`.
pub fn temp_gif_name(id: u64) -> (name: String)
    ensures
        name@ == temp_gif_name_text(id),
{
    let mut out = String::new();
    out.append("temp-gif_out-");
    push_decimal(&mut out, id);
    out.append(".gif");
    out
}

/// Draws a number from `rand`'s thread-local generator (`rand::rng()`,
/// `Rng::random`). Nothing is claimed of the number drawn.
#[verifier::external_body]
fn random_suffix() -> u64 {
    rand::rng().random::<u64>()
}

/// A name for the intermediate file with a suffix drawn at random, so that
/// two runs in one directory do not meet.
pub fn fresh_temp_gif_name() -> (name: String)
    ensures
        exists|id: u64| name@ == temp_gif_name_text(id),
{
    let id: u64 = random_suffix();
    temp_gif_name(id)
}

} // verus!
