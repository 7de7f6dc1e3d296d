use vstd::prelude::*;

use crate::fixed::{fp_sqrt, fp_sqrt_spec};
use crate::vec3::Color;

verus! {

/// Channels are clamped to just below one before quantization, so that a
/// fully bright channel maps to 255 and never to 256. This is the largest
/// fixed-point value not exceeding 0.999.
pub const CHANNEL_CLAMP: i64 = 65470;

/// What one output channel is: the accumulated channel sum averaged over the
/// sample count, gamma-corrected with a square root, clamped, and quantized
/// to 256 steps.
pub open spec fn channel_spec(sum: i64, samples: i32) -> u8 {
    let avg = (sum as int) / (samples as int);
    let root = fp_sqrt_spec(avg as i64);
    let clamped = if root > CHANNEL_CLAMP {
        CHANNEL_CLAMP
    } else {
        root
    };
    (clamped / 256) as u8
}

/// A black accumulator maps to black output for every positive sample
/// count: averaging, gamma correction and quantization all fix zero.
pub proof fn lemma_zero_sum_maps_to_zero(samples: i32)
    requires
        samples >= 1,
    ensures
        channel_spec(0, samples) == 0,
{
    assert(0int / (samples as int) == 0);
}

/// Map one accumulated channel sum to its 8-bit output value.
fn map_channel(sum: i64, samples: i32) -> (r: u8)
    requires
        samples >= 1,
        sum >= 0,
    ensures
        r == channel_spec(sum, samples),
{
    let avg: i64 = ((sum as u64) / (samples as u64)) as i64;
    let root = fp_sqrt(avg);
    let clamped: i64 = if root > CHANNEL_CLAMP {
        CHANNEL_CLAMP
    } else {
        root
    };
    ((clamped as u64) / 256) as u8
}

/// Average an accumulated color over its sample count, gamma-correct with
/// square roots, clamp, and quantize every channel to 8 bits.
pub fn color_to_rgb(pixel_color: Color, samples_per_pixel: i32) -> (r: [u8; 3])
    requires
        samples_per_pixel >= 1,
        pixel_color.x >= 0,
        pixel_color.y >= 0,
        pixel_color.z >= 0,
    ensures
        r[0] == channel_spec(pixel_color.x, samples_per_pixel),
        r[1] == channel_spec(pixel_color.y, samples_per_pixel),
        r[2] == channel_spec(pixel_color.z, samples_per_pixel),
{
    [
        map_channel(pixel_color.x, samples_per_pixel),
        map_channel(pixel_color.y, samples_per_pixel),
        map_channel(pixel_color.z, samples_per_pixel),
    ]
}

/// The error type a sink may report; opaque here, handed through unread.
#[verifier::external_type_specification]
#[verifier::external_body]
pub struct ExIoError(std::io::Error);

/// Relies on the writeln macro over std::io::Write to forward one
/// space-separated "r g b" line to the sink.
#[verifier::external_body]
fn write_rgb_line<W: std::io::Write>(out: &mut W, r: u8, g: u8, b: u8) -> std::io::Result<()> {
    writeln!(out, "{} {} {}", r, g, b)
}

/// Map an accumulated color as `color_to_rgb` does and write the resulting
/// triple to `out` as one plain-text line.
pub fn write_color<W: std::io::Write>(
    out: &mut W,
    pixel_color: Color,
    samples_per_pixel: i32,
) -> (res: std::io::Result<()>)
    requires
        samples_per_pixel >= 1,
        pixel_color.x >= 0,
        pixel_color.y >= 0,
        pixel_color.z >= 0,
{
    let rgb = color_to_rgb(pixel_color, samples_per_pixel);
    write_rgb_line(out, rgb[0], rgb[1], rgb[2])
}

} // verus!
