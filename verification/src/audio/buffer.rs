//! The interleaved, multi-channel sample buffer handed to render and capture
//! functions.

use vstd::prelude::*;

verus! {

/// The number of frames in a buffer when a stream is given no other length.
pub const DEFAULT_LEN_FRAMES: usize = 64;

/// The sample rate of a buffer that has not been given one.
pub const DEFAULT_SAMPLE_RATE: u32 = 44_100;

/// A buffer of interleaved samples: frame after frame, one sample per channel
/// in each frame.
///
/// The sample at index `frame * channels + channel` belongs to channel
/// `channel` of frame `frame`.
pub struct Buffer<S> {
    interleaved_samples: Vec<S>,
    channels: usize,
    sample_rate: u32,
}

/// `frame * channels + channel` stays inside a buffer of `frames` frames.
pub proof fn lemma_interleaved_index_in_range(frame: int, channel: int, frames: int, channels: int)
    requires
        0 <= frame < frames,
        0 <= channel < channels,
    ensures
        0 <= frame * channels + channel < frames * channels,
        frame * channels + channels <= frames * channels,
{
    assert(frame * channels + channels == (frame + 1) * channels) by (nonlinear_arith);
    assert((frame + 1) * channels <= frames * channels) by (nonlinear_arith)
        requires
            frame + 1 <= frames,
            channels >= 0,
    ;
    assert(0 <= frame * channels) by (nonlinear_arith)
        requires
            0 <= frame,
            0 <= channels,
    ;
}

/// Makes `samples` hold `len` samples, each of them `value`.
pub fn fill_silence<S: Copy>(samples: &mut Vec<S>, len: usize, value: S)
    ensures
        final(samples)@ == Seq::new(len as nat, |i: int| value),
{
    samples.clear();
    while samples.len() < len
        invariant
            samples@.len() <= len,
            forall|i: int| 0 <= i < samples@.len() ==> samples@[i] == value,
        decreases len - samples@.len(),
    {
        samples.push(value);
    }
    assert(samples@ =~= Seq::new(len as nat, |i: int| value));
}

impl<S: Copy> Buffer<S> {
    /// The samples in interleaved order.
    pub closed spec fn view(&self) -> Seq<S> {
        self.interleaved_samples@
    }

    /// The number of channels in each frame.
    pub closed spec fn spec_channels(&self) -> usize {
        self.channels
    }

    /// The rate, in frames per second, at which the samples are played or were
    /// captured.
    pub closed spec fn spec_sample_rate(&self) -> u32 {
        self.sample_rate
    }

    /// The number of whole frames.
    pub open spec fn spec_len_frames(&self) -> int {
        self@.len() as int / self.spec_channels() as int
    }

    /// Every frame is complete: the length is a whole number of frames.
    pub open spec fn wf(&self) -> bool {
        &&& self.spec_channels() > 0
        &&& self@.len() as int % self.spec_channels() as int == 0
    }

    /// An empty single-channel buffer with room for `capacity` samples.
    pub fn new(capacity: usize) -> (buffer: Self)
        ensures
            buffer.wf(),
            buffer@ == Seq::<S>::empty(),
            buffer.spec_channels() == 1,
            buffer.spec_sample_rate() == DEFAULT_SAMPLE_RATE,
    {
        Buffer {
            interleaved_samples: Vec::with_capacity(capacity),
            channels: 1,
            sample_rate: DEFAULT_SAMPLE_RATE,
        }
    }

    /// A buffer of `frames` frames of `channels` channels in which every sample
    /// is `value`.
    pub fn filled(frames: usize, channels: usize, sample_rate: u32, value: S) -> (buffer: Self)
        requires
            channels > 0,
            frames * channels <= usize::MAX,
        ensures
            buffer.wf(),
            buffer@ == Seq::new((frames * channels) as nat, |i: int| value),
            buffer.spec_channels() == channels,
            buffer.spec_sample_rate() == sample_rate,
    {
        let mut buffer = Buffer { interleaved_samples: Vec::new(), channels: 1, sample_rate };
        buffer.resize(frames, channels, value);
        assert(buffer@ =~= Seq::new((frames * channels) as nat, |i: int| value));
        buffer
    }

    /// Gives the buffer `frames` frames of `channels` channels. The samples
    /// that fit in the new length stay as they are; any further ones are
    /// `value`.
    pub fn resize(&mut self, frames: usize, channels: usize, value: S)
        requires
            channels > 0,
            frames * channels <= usize::MAX,
        ensures
            final(self).wf(),
            final(self).spec_channels() == channels,
            final(self).spec_sample_rate() == old(self).spec_sample_rate(),
            final(self)@.len() == frames * channels,
            final(self).spec_len_frames() == frames,
            forall|i: int|
                0 <= i < frames * channels ==> #[trigger] final(self)@[i] == (if i < old(self)@.len() {
                    old(self)@[i]
                } else {
                    value
                }),
    {
        let len = frames * channels;
        self.interleaved_samples.truncate(len);
        while self.interleaved_samples.len() < len
            invariant
                self.sample_rate == old(self).sample_rate,
                self.interleaved_samples@.len() <= len,
                self.interleaved_samples@.len() < len ==> self.interleaved_samples@.len() >= old(
                    self,
                )@.len(),
                forall|i: int|
                    0 <= i < self.interleaved_samples@.len() ==> #[trigger] self.interleaved_samples@[i]
                        == (if i < old(self)@.len() {
                        old(self)@[i]
                    } else {
                        value
                    }),
            decreases len - self.interleaved_samples@.len(),
        {
            self.interleaved_samples.push(value);
        }
        self.channels = channels;
        proof {
            vstd::arithmetic::div_mod::lemma_mod_multiples_basic(frames as int, channels as int);
            vstd::arithmetic::div_mod::lemma_div_by_multiple(frames as int, channels as int);
        }
    }

    /// Sets every sample to `value`, the way a buffer is silenced before it is
    /// rendered into.
    pub fn fill(&mut self, value: S)
        ensures
            final(self)@ == Seq::new(old(self)@.len(), |i: int| value),
            final(self).spec_channels() == old(self).spec_channels(),
            final(self).spec_sample_rate() == old(self).spec_sample_rate(),
            old(self).wf() ==> final(self).wf(),
    {
        let len = self.interleaved_samples.len();
        let mut i: usize = 0;
        while i < len
            invariant
                i <= len,
                len == self.interleaved_samples@.len(),
                len == old(self).interleaved_samples@.len(),
                self.channels == old(self).channels,
                self.sample_rate == old(self).sample_rate,
                forall|j: int| 0 <= j < i ==> self.interleaved_samples@[j] == value,
            decreases len - i,
        {
            self.interleaved_samples[i] = value;
            i += 1;
        }
        assert(self@ =~= Seq::new(old(self)@.len(), |i: int| value));
    }

    /// States the rate at which the samples are played or were captured.
    pub fn set_sample_rate(&mut self, sample_rate: u32)
        ensures
            final(self)@ == old(self)@,
            final(self).spec_channels() == old(self).spec_channels(),
            final(self).spec_sample_rate() == sample_rate,
    {
        self.sample_rate = sample_rate;
    }

    /// The number of samples, all channels together.
    pub fn len(&self) -> (n: usize)
        ensures
            n == self@.len(),
    {
        self.interleaved_samples.len()
    }

    /// The number of frames.
    pub fn len_frames(&self) -> (n: usize)
        requires
            self.wf(),
        ensures
            n == self.spec_len_frames(),
            n * self.spec_channels() == self@.len(),
    {
        proof {
            vstd::arithmetic::div_mod::lemma_fundamental_div_mod(
                self@.len() as int,
                self.spec_channels() as int,
            );
            assert(self.spec_channels() * (self@.len() as int / self.spec_channels() as int)
                == (self@.len() as int / self.spec_channels() as int) * self.spec_channels())
                by (nonlinear_arith);
        }
        self.interleaved_samples.len() / self.channels
    }

    /// The number of channels in each frame.
    pub fn channels(&self) -> (n: usize)
        ensures
            n == self.spec_channels(),
    {
        self.channels
    }

    /// The rate, in frames per second, of the samples.
    pub fn sample_rate(&self) -> (rate: u32)
        ensures
            rate == self.spec_sample_rate(),
    {
        self.sample_rate
    }

    /// The sample at `index` in interleaved order.
    pub fn get(&self, index: usize) -> (sample: S)
        requires
            index < self@.len(),
        ensures
            sample == self@[index as int],
    {
        self.interleaved_samples[index]
    }

    /// Replaces the sample at `index` in interleaved order.
    pub fn set(&mut self, index: usize, sample: S)
        requires
            index < old(self)@.len(),
        ensures
            final(self)@ == old(self)@.update(index as int, sample),
            final(self).spec_channels() == old(self).spec_channels(),
            final(self).spec_sample_rate() == old(self).spec_sample_rate(),
            old(self).wf() ==> final(self).wf(),
    {
        self.interleaved_samples[index] = sample;
    }

    /// The interleaved samples, frame after frame.
    pub fn as_slice(&self) -> (samples: &[S])
        ensures
            samples@ == self@,
    {
        self.interleaved_samples.as_slice()
    }

    /// The samples of each channel apart: element `channel` of the result holds
    /// that channel's sample of every frame, in frame order.
    pub fn as_channel_slices(&self) -> (slices: Vec<Vec<S>>)
        requires
            self.wf(),
        ensures
            slices@.len() == self.spec_channels(),
            forall|channel: int|
                0 <= channel < self.spec_channels() ==> (#[trigger] slices@[channel])@.len()
                    == self.spec_len_frames(),
            forall|channel: int, frame: int|
                0 <= channel < self.spec_channels() && 0 <= frame < self.spec_len_frames()
                    ==> #[trigger] slices@[channel]@[frame] == self@[frame * self.spec_channels()
                    + channel],
    {
        let frames = self.len_frames();
        let channels = self.channels;
        let len = self.interleaved_samples.len();
        let mut slices: Vec<Vec<S>> = Vec::with_capacity(channels);
        let mut channel: usize = 0;
        while channel < channels
            invariant
                self.wf(),
                channels == self.spec_channels(),
                frames == self.spec_len_frames(),
                frames * channels == len,
                len == self@.len(),
                channel <= channels,
                slices@.len() == channel,
                forall|c: int| 0 <= c < channel ==> (#[trigger] slices@[c])@.len() == frames,
                forall|c: int, f: int|
                    0 <= c < channel && 0 <= f < frames ==> #[trigger] slices@[c]@[f] == self@[f
                        * channels + c],
            decreases channels - channel,
        {
            let mut slice: Vec<S> = Vec::with_capacity(frames);
            let mut frame: usize = 0;
            while frame < frames
                invariant
                    channels == self.spec_channels(),
                    frames * channels == len,
                    len == self@.len(),
                    channel < channels,
                    frame <= frames,
                    slice@.len() == frame,
                    forall|f: int| 0 <= f < frame ==> #[trigger] slice@[f] == self@[f * channels + channel],
                decreases frames - frame,
            {
                proof {
                    lemma_interleaved_index_in_range(
                        frame as int,
                        channel as int,
                        frames as int,
                        channels as int,
                    );
                }
                slice.push(self.interleaved_samples[frame * channels + channel]);
                frame += 1;
            }
            slices.push(slice);
            channel += 1;
        }
        slices
    }
}

} // verus!
