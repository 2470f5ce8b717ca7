//! Filling an interleaved output buffer from stereo frames.

use vstd::prelude::*;

verus! {

/// The sample that `write_frames` puts at position `i` of a buffer of
/// `channels` interleaved channels: even channels take the left sample of
/// the frame, odd channels the right one.
pub open spec fn interleaved_sample<T>(frames: Seq<(T, T)>, channels: int, i: int) -> T {
    if (i % channels) % 2 == 0 {
        frames[i / channels].0
    } else {
        frames[i / channels].1
    }
}

/// Writes one stereo frame after another into `output`, `channels` samples
/// a frame (the last frame may be cut short by the end of the buffer):
/// within a frame, the even channels get the left sample and the odd
/// channels the right one.
pub fn write_frames<T: Copy>(output: &mut [T], channels: usize, frames: &[(T, T)])
    requires
        channels > 0,
        old(output)@.len() <= frames@.len() * channels,
    ensures
        final(output)@.len() == old(output)@.len(),
        forall|i: int|
            0 <= i < final(output)@.len() ==> #[trigger] final(output)@[i] == interleaved_sample(
                frames@,
                channels as int,
                i,
            ),
{
    let len = output.len();
    let mut i: usize = 0;
    while i < len
        invariant
            channels > 0,
            len == output@.len(),
            len == old(output)@.len(),
            len <= frames@.len() * channels,
            i <= len,
            forall|j: int|
                0 <= j < i ==> #[trigger] output@[j] == interleaved_sample(
                    frames@,
                    channels as int,
                    j,
                ),
        decreases len - i,
    {
        let frame = i / channels;
        let channel = i % channels;
        assert(frame < frames@.len()) by (nonlinear_arith)
            requires
                frame == i / channels,
                i < len,
                len <= frames@.len() * channels,
                channels > 0,
        ;
        let (left, right) = frames[frame];
        if channel & 1 == 0 {
            output[i] = left;
        } else {
            output[i] = right;
        }
        assert(channel % 2 == 0 <==> channel & 1 == 0) by (bit_vector);
        i = i + 1;
    }
}

/// Frame `k` fills samples `k * channels .. (k + 1) * channels`: its left
/// sample goes to channels 0, 2, 4, ... and its right sample to channels
/// 1, 3, 5, ...
pub proof fn lemma_frame_layout<T>(frames: Seq<(T, T)>, channels: int, k: int, j: int)
    requires
        channels > 0,
        0 <= k,
        0 <= j < channels,
    ensures
        j % 2 == 0 ==> interleaved_sample(frames, channels, k * channels + j) == frames[k].0,
        j % 2 == 1 ==> interleaved_sample(frames, channels, k * channels + j) == frames[k].1,
{
    vstd::arithmetic::div_mod::lemma_fundamental_div_mod_converse(k * channels + j, channels, k, j);
}

} // verus!
