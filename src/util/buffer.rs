//! Non-interleaved buffers: one vector of samples per channel.

use vstd::prelude::*;

verus! {

/// Makes a buffer of `channels` channels holding `frames` samples each, every
/// sample `silence`.
pub fn create_buffer<T: Copy>(channels: usize, frames: usize, silence: T) -> (buffer: Vec<Vec<T>>)
    ensures
        buffer@.len() == channels,
        forall|c: int| 0 <= c < channels ==> (#[trigger] buffer@[c])@ == Seq::new(frames as nat, |_i: int| silence),
{
    let mut buffer: Vec<Vec<T>> = Vec::with_capacity(channels);
    while buffer.len() < channels
        invariant
            buffer@.len() <= channels,
            forall|c: int| 0 <= c < buffer@.len() ==> (#[trigger] buffer@[c])@ == Seq::new(frames as nat, |_i: int| silence),
        decreases channels - buffer@.len(),
    {
        let mut channel: Vec<T> = Vec::with_capacity(frames);
        while channel.len() < frames
            invariant
                channel@.len() <= frames,
                forall|i: int| 0 <= i < channel@.len() ==> channel@[i] == silence,
            decreases frames - channel@.len(),
        {
            channel.push(silence);
        }
        assert(channel@ == Seq::new(frames as nat, |_i: int| silence));
        buffer.push(channel);
    }
    buffer
}

} // verus!
