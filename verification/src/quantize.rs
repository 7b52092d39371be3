//! Luminance quantization: from an 8-bit sample to an index into the ramp.

use vstd::prelude::*;

verus! {

/// The ramp index of a luminance sample: `sample / 255 * (ramp_len - 1)`,
/// rounded down. Black (0) is the first ramp entry, white (255) the last.
pub open spec fn quantize_index(sample: int, ramp_len: int) -> int {
    sample * (ramp_len - 1) / 255
}

/// Every sample of a non-empty ramp quantizes to a valid ramp index.
pub proof fn quantize_index_in_bounds(sample: int, ramp_len: int)
    requires
        0 <= sample <= 255,
        ramp_len >= 1,
    ensures
        0 <= quantize_index(sample, ramp_len) < ramp_len,
{
    let steps = ramp_len - 1;
    assert(0 <= sample * steps <= 255 * steps) by (nonlinear_arith)
        requires
            0 <= sample <= 255,
            0 <= steps,
    ;
}

/// Quantization never decreases as the sample gets lighter.
pub proof fn quantize_index_monotone(darker: int, lighter: int, ramp_len: int)
    requires
        0 <= darker <= lighter <= 255,
        ramp_len >= 1,
    ensures
        quantize_index(darker, ramp_len) <= quantize_index(lighter, ramp_len),
{
    let steps = ramp_len - 1;
    assert(darker * steps <= lighter * steps) by (nonlinear_arith)
        requires
            darker <= lighter,
            0 <= steps,
    ;
}

/// Black maps to the first ramp entry and white to the last.
pub proof fn quantize_index_endpoints(ramp_len: int)
    requires
        ramp_len >= 1,
    ensures
        quantize_index(0, ramp_len) == 0,
        quantize_index(255, ramp_len) == ramp_len - 1,
{
    let steps = ramp_len - 1;
    assert(0 * steps == 0);
    assert(255 * steps / 255 == steps);
}

/// Maps a luminance sample to its index in a ramp of `ramp_len` characters.
pub fn quantize(sample: u8, ramp_len: usize) -> (index: usize)
    requires
        ramp_len >= 1,
    ensures
        index == quantize_index(sample as int, ramp_len as int),
        index < ramp_len,
{
    let steps: u128 = (ramp_len - 1) as u128;
    proof {
        quantize_index_in_bounds(sample as int, ramp_len as int);
        assert(0 <= sample * steps <= 255 * steps) by (nonlinear_arith)
            requires
                0 <= sample <= 255,
                0 <= steps,
        ;
    }
    let scaled: u128 = (sample as u128) * steps;
    (scaled / 255) as usize
}

} // verus!
