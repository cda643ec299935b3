//! Colorspace conversion: a packed 4:2:2 luma/chroma byte buffer to an
//! RGB byte buffer, sample-accurate. Each four-byte group `[Y0, U, Y1, V]`
//! carries two luma samples and one shared chroma pair and yields two RGB
//! triplets. Chroma is centered to signed range and the standard
//! luma/chroma transform is evaluated in fixed point at a scale of one
//! million (coefficients 1.402, 0.344136, 0.714136 and 1.772 become the
//! integers 1402000, 344136, 714136 and 1772000), then clamped to an
//! 8-bit channel by truncation. The conversion is total: trailing bytes
//! that do not complete a four-byte group are silently dropped.

use vstd::prelude::*;

verus! {

/// Fixed-point scale of the chroma coefficients.
pub const COEFF_SCALE: i32 = 1_000_000;

/// A chroma sample centered to signed range.
pub open spec fn centered(c: u8) -> int {
    c - 128
}

/// Clamp a channel value at the fixed-point scale to an 8-bit channel:
/// negative values floor at 0, values of 256 or more cap at 255, and the
/// rest truncate to their integer part.
pub open spec fn clamp_scaled(s: int) -> u8 {
    if s < 0 {
        0u8
    } else if s / (COEFF_SCALE as int) > 255 {
        255u8
    } else {
        (s / (COEFF_SCALE as int)) as u8
    }
}

/// Red channel of one sample: `clamp(Y + 1.402 * (V - 128))`.
pub open spec fn red_of(y: u8, v: u8) -> u8 {
    clamp_scaled(1_000_000 * y + 1_402_000 * centered(v))
}

/// Green channel of one sample:
/// `clamp(Y - 0.344136 * (U - 128) - 0.714136 * (V - 128))`.
pub open spec fn green_of(y: u8, u: u8, v: u8) -> u8 {
    clamp_scaled(1_000_000 * y - 344_136 * centered(u) - 714_136 * centered(v))
}

/// Blue channel of one sample: `clamp(Y + 1.772 * (U - 128))`.
pub open spec fn blue_of(y: u8, u: u8) -> u8 {
    clamp_scaled(1_000_000 * y + 1_772_000 * centered(u))
}

/// Law: the conversion clamps — whatever the fixed-point intermediate,
/// every emitted channel stays within [0, 255]; extreme chroma can
/// neither overflow nor underflow a channel.
pub proof fn lemma_channel_bounded(s: int)
    ensures
        0 <= clamp_scaled(s) <= 255,
{
}

/// The six output bytes of group `g` are the two RGB triplets of the
/// four input bytes `[Y0, U, Y1, V]` of group `g`, in input pixel order.
pub open spec fn group_matches(raw: Seq<u8>, out: Seq<u8>, g: int) -> bool
    recommends
        0 <= g,
        4 * g + 3 < raw.len(),
        6 * g + 5 < out.len(),
{
    &&& out[6 * g] == red_of(raw[4 * g], raw[4 * g + 3])
    &&& out[6 * g + 1] == green_of(raw[4 * g], raw[4 * g + 1], raw[4 * g + 3])
    &&& out[6 * g + 2] == blue_of(raw[4 * g], raw[4 * g + 1])
    &&& out[6 * g + 3] == red_of(raw[4 * g + 2], raw[4 * g + 3])
    &&& out[6 * g + 4] == green_of(raw[4 * g + 2], raw[4 * g + 1], raw[4 * g + 3])
    &&& out[6 * g + 5] == blue_of(raw[4 * g + 2], raw[4 * g + 1])
}

/// Clamp a fixed-point channel value to an 8-bit channel.
fn clamp_channel(s: i32) -> (r: u8)
    ensures
        r == clamp_scaled(s as int),
{
    if s < 0 {
        0
    } else {
        let q: u32 = (s as u32) / 1_000_000;
        if q > 255 {
            255
        } else {
            q as u8
        }
    }
}

/// Red channel of one sample.
pub fn red_sample(y: u8, v: u8) -> (r: u8)
    ensures
        r == red_of(y, v),
{
    let vc: i32 = (v as i32) - 128;
    clamp_channel(1_000_000 * (y as i32) + 1_402_000 * vc)
}

/// Green channel of one sample.
pub fn green_sample(y: u8, u: u8, v: u8) -> (r: u8)
    ensures
        r == green_of(y, u, v),
{
    let uc: i32 = (u as i32) - 128;
    let vc: i32 = (v as i32) - 128;
    clamp_channel(1_000_000 * (y as i32) - 344_136 * uc - 714_136 * vc)
}

/// Blue channel of one sample.
pub fn blue_sample(y: u8, u: u8) -> (r: u8)
    ensures
        r == blue_of(y, u),
{
    let uc: i32 = (u as i32) - 128;
    clamp_channel(1_000_000 * (y as i32) + 1_772_000 * uc)
}

/// Append the two RGB triplets of one four-byte group `[Y0, U, Y1, V]`.
fn push_group(out: &mut Vec<u8>, y0: u8, u: u8, y1: u8, v: u8)
    ensures
        final(out)@ == old(out)@ + seq![
            red_of(y0, v),
            green_of(y0, u, v),
            blue_of(y0, u),
            red_of(y1, v),
            green_of(y1, u, v),
            blue_of(y1, u),
        ],
{
    out.push(red_sample(y0, v));
    out.push(green_sample(y0, u, v));
    out.push(blue_sample(y0, u));
    out.push(red_sample(y1, v));
    out.push(green_sample(y1, u, v));
    out.push(blue_sample(y1, u));
    proof {
        assert(out@ =~= old(out)@ + seq![
            red_of(y0, v),
            green_of(y0, u, v),
            blue_of(y0, u),
            red_of(y1, v),
            green_of(y1, u, v),
            blue_of(y1, u),
        ]);
    }
}

/// Convert a packed 4:2:2 buffer to RGB: each complete four-byte group
/// emits six bytes, two RGB triplets, in input pixel order; an incomplete
/// trailing group is dropped. Total over every input.
#[verifier::rlimit(60)]
pub fn convert_frame(raw: &Vec<u8>) -> (out: Vec<u8>)
    ensures
        out@.len() == (raw@.len() / 4) * 6,
        forall|g: int| 0 <= g < raw@.len() / 4 ==> #[trigger] group_matches(raw@, out@, g),
{
    let n: usize = raw.len() / 4;
    let mut out: Vec<u8> = Vec::new();
    let mut g: usize = 0;
    while g < n
        invariant
            raw@.len() <= usize::MAX,
            n == raw@.len() / 4,
            g <= n,
            out@.len() == 6 * g,
            forall|t: int| 0 <= t < g ==> #[trigger] group_matches(raw@, out@, t),
        decreases n - g,
    {
        let ghost prev = out@;
        proof {
            assert(4 * (raw@.len() / 4) <= raw@.len());
        }
        let i: usize = 4 * g;
        let y0 = raw[i];
        let u = raw[i + 1];
        let y1 = raw[i + 2];
        let v = raw[i + 3];
        push_group(&mut out, y0, u, y1, v);
        proof {
            assert(group_matches(raw@, out@, g as int));
            assert forall|t: int| 0 <= t < g implies #[trigger] group_matches(raw@, out@, t) by {
                assert(group_matches(raw@, prev, t));
                assert(forall|j: int| 0 <= j < prev.len() ==> out@[j] == prev[j]);
            }
        }
        g = g + 1;
    }
    out
}

} // verus!
