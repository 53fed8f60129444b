//! A linear-prediction step over an audio buffer: each sample past the
//! window is corrected by a prediction from the twelve before it.

use vstd::prelude::*;

verus! {

/// Runs the prediction pass over the example buffer. The window is as
/// long as the buffer, so no sample lies past it and the data comes back
/// unchanged — which is exactly what the contract pins down.
pub fn audio_decoder_example() -> (r: Vec<i32>)
    ensures
        r@ =~= seq![11i32, 23, 3, 41, 5, 65, 7, 86, 97, 10, 81, 12],
{
    let mut buffer: Vec<i32> = vec![11, 23, 3, 41, 5, 65, 7, 86, 97, 10, 81, 12];
    let coefficients: Vec<i64> = vec![1, 2, 3, 4, 5, 6, 7, 8, 9, 10, 11, 12];
    let qlp_shift: u32 = 0;

    let ghost orig = buffer@;
    let mut i: usize = 12;
    while i < buffer.len()
        invariant
            buffer@ == orig,
            orig.len() == 12,
            coefficients@.len() == 12,
            i >= 12,
        decreases buffer@.len() - i,
    {
        // the window is the whole buffer here, so this body never runs;
        // were the buffer longer, each sample would be corrected in turn
        let mut acc: i64 = 0;
        let mut j: usize = 0;
        while j < 12
            invariant
                buffer@ == orig,
                orig.len() == 12,
                coefficients@.len() == 12,
                12 <= i < buffer@.len(),
                j <= 12,
            decreases 12 - j,
        {
            acc = acc + coefficients[j] * (buffer[i - 12 + j] as i64);
            j = j + 1;
        }
        let prediction = acc >> qlp_shift;
        let delta = buffer[i];
        let corrected = (#[verifier::truncate] (prediction as i32)) + delta;
        buffer.set(i, corrected);
        i = i + 1;
    }
    buffer
}

} // verus!
