//! Quantization of accumulated color to output bytes.
//!
//! After averaging its samples and applying gamma correction, the renderer
//! hands each channel over as an integer count of millionths. The channel is
//! clamped to `[0, 0.999]` — in millionths, `[0, 999_000]` — scaled by `255`
//! and rounded to the nearest integer. At the clamp ceiling the rounded
//! value would just reach `255`, so the result is capped at `254`: the
//! emitted byte never reaches `255`, however overexposed the input was.

use vstd::prelude::*;

verus! {

/// One color unit, expressed in millionths.
pub const CHANNEL_ONE: i64 = 1_000_000;

/// Half a millionth step, the rounding offset.
pub const CHANNEL_HALF: i64 = 500_000;

/// The clamp ceiling, in millionths: channels are clamped to `[0, 0.999]`.
pub const CHANNEL_CEILING: i64 = 999_000;

/// The channel value after clamping to `[0, 0.999]`, in millionths.
pub open spec fn clamped_channel(m: int) -> int {
    if m < 0 {
        0
    } else if m > CHANNEL_CEILING as int {
        CHANNEL_CEILING as int
    } else {
        m
    }
}

/// The byte emitted for a channel of `m` millionths: the clamped value
/// scaled by `255`, rounded to the nearest integer, and capped at `254`.
pub open spec fn channel_byte(m: int) -> int {
    let rounded = (255 * clamped_channel(m) + CHANNEL_HALF as int) / (CHANNEL_ONE as int);
    if rounded > 254 {
        254
    } else {
        rounded
    }
}

/// Quantizes one gamma-corrected channel, given in millionths, to its output
/// byte. The result never reaches `255`: the rounded value is capped at
/// `254`.
pub fn channel_to_byte(m: i64) -> (b: u8)
    ensures
        b as int == channel_byte(m as int),
        b <= 254,
{
    let c: i64 = if m < 0 {
        0
    } else if m > CHANNEL_CEILING {
        CHANNEL_CEILING
    } else {
        m
    };
    let rounded: i64 = (255 * c + CHANNEL_HALF) / CHANNEL_ONE;
    if rounded > 254 {
        254
    } else {
        rounded as u8
    }
}

} // verus!
