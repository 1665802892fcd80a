//! Delay lines: a rolling history of the most recent samples per channel,
//! read back at a chosen lag.
//!
//! A line is generic in its sample type. Each call of `process` writes one
//! sample and reads two neighbouring stored samples, the taps, between which a
//! caller interpolates for a fractional delay: for a delay of `d` samples the
//! lag is `d` rounded up, the older tap gets weight `1 - (lag - d)` and the
//! newer tap weight `lag - d`.

use vstd::prelude::*;

verus! {

/// The two stored samples that one read of a delay line gives.
#[derive(Clone, Copy, Debug)]
pub struct Taps<T> {
    /// The sample `lag` calls back from the newest one.
    pub older: T,
    /// The sample one call more recent than `older`.
    pub newer: T,
}

/// The number of samples that a line made for `max_delay_samples` holds: one
/// more than the longest delay, which is at least one.
pub open spec fn capacity_for(max_delay_samples: i32) -> nat {
    if max_delay_samples < 1 {
        2
    } else {
        max_delay_samples as nat + 1
    }
}

/// A history of `len` samples that are all `silence`.
pub open spec fn silent<T>(len: nat, silence: T) -> Seq<T> {
    Seq::new(len, |_i: int| silence)
}

/// What a history of fixed length holds once `samples` have been written to
/// it: the last `history.len()` samples of the two, oldest first.
pub open spec fn fed<T>(history: Seq<T>, samples: Seq<T>) -> Seq<T> {
    (history + samples).subrange(samples.len() as int, (history.len() + samples.len()) as int)
}

/// The sample `back` places behind the newest one of `history` (oldest first).
pub open spec fn sample_back<T>(history: Seq<T>, back: int) -> T {
    history[history.len() - 1 - back]
}

/// The taps that a read at `lag` gives from `history`: the sample `lag`
/// places back, the lag taken modulo the length of the history, and the one
/// after it, where the one after the newest is the oldest.
pub open spec fn taps_at<T>(history: Seq<T>, lag: int) -> Taps<T> {
    let back = lag % (history.len() as int);
    Taps {
        older: sample_back(history, back),
        newer: if back == 0 {
            history[0]
        } else {
            sample_back(history, back - 1)
        },
    }
}

/// Feeding samples one call at a time is feeding them all at once: a run of
/// `process` calls leaves the history `fed(start, inputs)`.
pub proof fn lemma_fed_one_more<T>(history: Seq<T>, samples: Seq<T>, sample: T)
    ensures
        fed(fed(history, samples), seq![sample]) == fed(history, samples.push(sample)),
{
    assert(fed(fed(history, samples), seq![sample]) =~= fed(history, samples.push(sample)));
}

/// Integer delays are exact: once `samples` have been fed to a line whose
/// history was `history`, a read at a lag `d` below the capacity gives as its
/// older tap the sample written `d` calls before the last one, counting the
/// starting history as earlier input; and for `d >= 1` its newer tap is the one
/// written `d - 1` calls before the last. A fractional delay between `d - 1`
/// and `d` thus interpolates between exactly those two samples.
pub proof fn lemma_integer_lag_exact<T>(history: Seq<T>, samples: Seq<T>, d: int)
    requires
        0 <= d < history.len(),
    ensures
        taps_at(fed(history, samples), d).older == (history + samples)[history.len()
            + samples.len() - 1 - d],
        d >= 1 ==> taps_at(fed(history, samples), d).newer == (history + samples)[history.len()
            + samples.len() - d],
{
    let h = fed(history, samples);
    assert(d % (h.len() as int) == d) by {
        vstd::arithmetic::div_mod::lemma_small_mod(d as nat, h.len());
    }
}

/// A single-channel delay line.
pub struct Delay<T> {
    buffer: Vec<T>,
    write_index: usize,
}

impl<T: Copy> Delay<T> {
    /// The circular buffer is long enough for a delay of one sample, and the
    /// write cursor lies inside it.
    pub closed spec fn wf(&self) -> bool {
        &&& self.buffer@.len() >= 2
        &&& self.write_index < self.buffer@.len()
    }

    /// The number of samples the line holds.
    pub closed spec fn capacity(&self) -> nat {
        self.buffer@.len()
    }

    /// The stored samples, oldest first; the last one is the most recently
    /// written, and the first one is overwritten next.
    pub closed spec fn history(&self) -> Seq<T> {
        let cap = self.buffer@.len() as int;
        let w = self.write_index as int;
        Seq::new(
            self.buffer@.len(),
            |j: int|
                if w + j < cap {
                    self.buffer@[w + j]
                } else {
                    self.buffer@[w + j - cap]
                },
        )
    }

    /// Makes a line for delays up to `max_delay_samples` (at least one), with
    /// every stored sample `silence`.
    pub fn new(max_delay_samples: i32, silence: T) -> (delay: Self)
        ensures
            delay.wf(),
            delay.capacity() == capacity_for(max_delay_samples),
            delay.history() == silent(capacity_for(max_delay_samples), silence),
    {
        let longest: usize = if max_delay_samples < 1 {
            1
        } else {
            max_delay_samples as usize
        };
        let capacity: usize = longest + 1;
        let mut buffer: Vec<T> = Vec::with_capacity(capacity);
        while buffer.len() < capacity
            invariant
                capacity == capacity_for(max_delay_samples),
                buffer@.len() <= capacity,
                forall|i: int| 0 <= i < buffer@.len() ==> buffer@[i] == silence,
            decreases capacity - buffer@.len(),
        {
            buffer.push(silence);
        }
        let delay = Delay { buffer, write_index: 0 };
        assert(delay.history() == silent(capacity_for(max_delay_samples), silence));
        delay
    }

    /// Writes `input` as the newest sample, then reads the taps `lag` samples
    /// back (see [`taps_at`]). A lag of zero gives `input` itself as the older
    /// tap; lags of the capacity or more wrap round to newer samples.
    pub fn process(&mut self, input: T, lag: usize) -> (taps: Taps<T>)
        requires
            old(self).wf(),
        ensures
            final(self).wf(),
            final(self).capacity() == old(self).capacity(),
            final(self).history() == fed(old(self).history(), seq![input]),
            taps == taps_at(final(self).history(), lag as int),
    {
        let len: usize = self.buffer.len();
        let w: usize = self.write_index;
        self.buffer.set(w, input);
        let back: usize = lag % len;
        let i0: usize = if back <= w {
            w - back
        } else {
            len - back + w
        };
        let i1: usize = if i0 + 1 < len {
            i0 + 1
        } else {
            0
        };
        let taps = Taps { older: self.buffer[i0], newer: self.buffer[i1] };
        self.write_index = if w + 1 < len {
            w + 1
        } else {
            0
        };
        assert(self.history() == fed(old(self).history(), seq![input]));
        taps
    }
}

/// The histories of a set of channels after one frame, one sample per
/// channel, has been written: each channel takes its own sample and nothing
/// else.
pub open spec fn fed_frame<T>(histories: Seq<Seq<T>>, frame: Seq<T>) -> Seq<Seq<T>> {
    Seq::new(histories.len(), |c: int| fed(histories[c], seq![frame[c]]))
}

/// The histories of a set of channels after `frames` have been written, one
/// after another.
pub open spec fn fed_frames<T>(histories: Seq<Seq<T>>, frames: Seq<Seq<T>>) -> Seq<Seq<T>>
    decreases frames.len(),
{
    if frames.len() == 0 {
        histories
    } else {
        fed_frame(fed_frames(histories, frames.drop_last()), frames.last())
    }
}

/// The samples of channel `c` in a run of frames.
pub open spec fn channel_of<T>(frames: Seq<Seq<T>>, c: int) -> Seq<T> {
    Seq::new(frames.len(), |t: int| frames[t][c])
}

/// Channels are independent: after any run of frames, the history of channel
/// `c` is its starting history fed with channel `c`'s own samples, whatever the
/// other channels held or were fed.
pub proof fn lemma_channels_independent<T>(histories: Seq<Seq<T>>, frames: Seq<Seq<T>>, c: int)
    requires
        0 <= c < histories.len(),
        forall|t: int| 0 <= t < frames.len() ==> (#[trigger] frames[t]).len() == histories.len(),
    ensures
        fed_frames(histories, frames).len() == histories.len(),
        fed_frames(histories, frames)[c] == fed(histories[c], channel_of(frames, c)),
    decreases frames.len(),
{
    if frames.len() == 0 {
        assert(fed(histories[c], channel_of(frames, c)) =~= histories[c]);
    } else {
        let before = frames.drop_last();
        lemma_channels_independent(histories, before, c);
        lemma_fed_one_more(histories[c], channel_of(before, c), frames.last()[c]);
        assert(channel_of(before, c).push(frames.last()[c]) =~= channel_of(frames, c));
    }
}

/// A multi-channel delay line: one independent [`Delay`] per channel, all
/// read at the same lag.
pub struct MultiDelay<T> {
    channels: usize,
    delays: Vec<Delay<T>>,
}

impl<T: Copy> MultiDelay<T> {
    /// One well-formed line per channel.
    pub closed spec fn wf(&self) -> bool {
        &&& self.delays@.len() == self.channels
        &&& forall|c: int| 0 <= c < self.delays@.len() ==> (#[trigger] self.delays@[c]).wf()
    }

    /// The number of channels.
    pub closed spec fn channel_count(&self) -> nat {
        self.channels as nat
    }

    /// The number of samples each channel holds.
    pub closed spec fn capacities(&self) -> Seq<nat> {
        Seq::new(self.delays@.len(), |c: int| self.delays@[c].capacity())
    }

    /// The history of each channel (see [`Delay::history`]).
    pub closed spec fn histories(&self) -> Seq<Seq<T>> {
        Seq::new(self.delays@.len(), |c: int| self.delays@[c].history())
    }

    /// Makes `channels` lines, each for delays up to `max_delay_samples` and
    /// filled with `silence`.
    pub fn new(channels: usize, max_delay_samples: i32, silence: T) -> (multi: Self)
        ensures
            multi.wf(),
            multi.channel_count() == channels,
            multi.capacities() == Seq::new(channels as nat, |_c: int| capacity_for(max_delay_samples)),
            multi.histories() == Seq::new(
                channels as nat,
                |_c: int| silent(capacity_for(max_delay_samples), silence),
            ),
    {
        let mut delays: Vec<Delay<T>> = Vec::with_capacity(channels);
        while delays.len() < channels
            invariant
                delays@.len() <= channels,
                forall|c: int|
                    0 <= c < delays@.len() ==> {
                        &&& (#[trigger] delays@[c]).wf()
                        &&& delays@[c].capacity() == capacity_for(max_delay_samples)
                        &&& delays@[c].history() == silent(capacity_for(max_delay_samples), silence)
                    },
            decreases channels - delays@.len(),
        {
            delays.push(Delay::new(max_delay_samples, silence));
        }
        let multi = MultiDelay { channels, delays };
        assert(multi.capacities() =~= Seq::new(channels as nat, |_c: int| capacity_for(max_delay_samples)));
        assert(multi.histories() =~= Seq::new(
            channels as nat,
            |_c: int| silent(capacity_for(max_delay_samples), silence),
        ));
        multi
    }

    /// The number of channels, which every frame must match.
    pub fn channels(&self) -> (n: usize)
        ensures
            n == self.channel_count(),
    {
        self.channels
    }

    /// Writes one frame, a sample per channel, and reads every channel at
    /// `lag`: `taps[c]` comes from channel `c` alone.
    pub fn process(&mut self, input: &[T], lag: usize) -> (taps: Vec<Taps<T>>)
        requires
            old(self).wf(),
            input@.len() == old(self).channel_count(),
        ensures
            final(self).wf(),
            final(self).channel_count() == old(self).channel_count(),
            final(self).capacities() == old(self).capacities(),
            final(self).histories() == fed_frame(old(self).histories(), input@),
            taps@.len() == old(self).channel_count(),
            forall|c: int|
                0 <= c < taps@.len() ==> #[trigger] taps@[c] == taps_at(
                    final(self).histories()[c],
                    lag as int,
                ),
    {
        let mut taps: Vec<Taps<T>> = Vec::with_capacity(self.channels);
        let mut ch: usize = 0;
        while ch < self.channels
            invariant
                self.wf(),
                self.channels == old(self).channels,
                self.delays@.len() == old(self).delays@.len(),
                input@.len() == self.channels,
                ch <= self.channels,
                taps@.len() == ch,
                forall|c: int|
                    0 <= c < ch ==> {
                        &&& (#[trigger] self.delays@[c]).capacity() == old(self).delays@[c].capacity()
                        &&& self.delays@[c].history() == fed(
                            old(self).delays@[c].history(),
                            seq![input@[c]],
                        )
                        &&& taps@[c] == taps_at(self.delays@[c].history(), lag as int)
                    },
                forall|c: int| ch <= c < self.channels ==> #[trigger] self.delays@[c] == old(self).delays@[c],
            decreases self.channels - ch,
        {
            let t = self.delays[ch].process(input[ch], lag);
            taps.push(t);
            ch = ch + 1;
        }
        assert(self.capacities() =~= old(self).capacities());
        assert(self.histories() =~= fed_frame(old(self).histories(), input@));
        taps
    }
}

} // verus!
