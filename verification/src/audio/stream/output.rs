//! Output streams: the render function that produces the audio, the builder
//! of a stream that plays it, and what is done each time the hardware asks for
//! a buffer.

use super::{takes_any_model, updates_lead, BuildError, State, Stream, StreamId};
use crate::audio::buffer::{fill_silence, Buffer, DEFAULT_LEN_FRAMES};
use crate::audio::device::{Device, Format, SampleFormat};
use crate::audio::requester::{filled, Requester, Shape};
use vstd::prelude::*;

verus! {

/// The function that is called when a `Buffer` is ready to be rendered.
///
/// The buffer arrives silent, with the stream's channel count and sample rate
/// and the length that the stream was built with; the function writes the
/// samples to play into it and may change the model as it does so. What it
/// writes and what it makes of the model depend on nothing but the model and
/// the buffer it was given.
pub trait RenderFn<M, S: Copy> {
    /// The model after one call. Unless a render function says otherwise, it
    /// leaves the model as it is.
    open spec fn model_after(&self, model: M, samples: Seq<S>, channels: usize, sample_rate: u32) -> M {
        model
    }

    /// The samples in the buffer after one call. Unless a render function says
    /// otherwise, it leaves the buffer as it is.
    open spec fn samples_after(
        &self,
        model: M,
        samples: Seq<S>,
        channels: usize,
        sample_rate: u32,
    ) -> Seq<S> {
        samples
    }

    /// Renders one buffer of audio from the model.
    fn render(&self, model: &mut M, buffer: &mut Buffer<S>)
        requires
            old(buffer).wf(),
        ensures
            final(buffer).wf(),
            final(buffer).spec_channels() == old(buffer).spec_channels(),
            final(buffer).spec_sample_rate() == old(buffer).spec_sample_rate(),
            final(buffer)@.len() == old(buffer)@.len(),
            final(buffer)@ == self.samples_after(
                *old(model),
                old(buffer)@,
                old(buffer).spec_channels(),
                old(buffer).spec_sample_rate(),
            ),
            *final(model) == self.model_after(
                *old(model),
                old(buffer)@,
                old(buffer).spec_channels(),
                old(buffer).spec_sample_rate(),
            ),
    ;
}

/// The render function of a stream that was given none: it leaves the buffer
/// silent.
pub fn default_render_fn<S: Copy>(_model: &mut (), _buffer: &mut Buffer<S>)
    ensures
        *final(_model) == *old(_model),
        *final(_buffer) == *old(_buffer),
{
}

/// `default_render_fn` as a value that a stream can hold.
pub struct DefaultRenderFn;

impl<S: Copy> RenderFn<(), S> for DefaultRenderFn {
    open spec fn model_after(
        &self,
        model: (),
        samples: Seq<S>,
        channels: usize,
        sample_rate: u32,
    ) -> () {
        model
    }

    open spec fn samples_after(
        &self,
        model: (),
        samples: Seq<S>,
        channels: usize,
        sample_rate: u32,
    ) -> Seq<S> {
        samples
    }

    fn render(&self, model: &mut (), buffer: &mut Buffer<S>) {
        default_render_fn(model, buffer);
    }
}

/// Collects what is asked of an output stream, and builds it.
pub struct Builder<M, S, F> {
    pub builder: super::Builder<M, S>,
    pub render: F,
}

/// The side of an output stream that the hardware calls: the render function,
/// the requester that asks it for buffers, and the samples made ready for the
/// hardware at the last call.
pub struct Output<S, F> {
    render: F,
    requester: Requester<S>,
    samples: Vec<S>,
    sample_rate: u32,
}

impl<S: Copy> Builder<(), S, DefaultRenderFn> {
    /// A builder of a stream of samples of type `S`, which the hardware is to
    /// take in the encoding `sample_format` and among which `equilibrium` is
    /// silence. Until more is said, the stream has no model, renders silence,
    /// and leaves everything else to the device.
    pub fn new(sample_format: SampleFormat, equilibrium: S) -> (builder: Self)
        ensures
            builder.builder.wf(),
            builder.builder.sample_rate is None,
            builder.builder.channels is None,
            builder.builder.frames_per_buffer is None,
            builder.builder.device is None,
            builder.builder.sample_format == sample_format,
            builder.builder.equilibrium == equilibrium,
    {
        Builder {
            builder: super::Builder {
                model: (),
                sample_rate: None,
                channels: None,
                frames_per_buffer: None,
                device: None,
                sample_format,
                equilibrium,
            },
            render: DefaultRenderFn,
        }
    }
}

impl<M, S: Copy, F> Builder<M, S, F> {
    /// The "model" that represents the state of the program on the audio
    /// thread. All else stays as it was asked.
    pub fn model<M2>(self, model: M2) -> (builder: Builder<M2, S, F>)
        ensures
            builder.builder.model == model,
            builder.render == self.render,
            builder.builder.sample_rate == self.builder.sample_rate,
            builder.builder.channels == self.builder.channels,
            builder.builder.frames_per_buffer == self.builder.frames_per_buffer,
            builder.builder.device == self.builder.device,
            builder.builder.sample_format == self.builder.sample_format,
            builder.builder.equilibrium == self.builder.equilibrium,
            self.builder.wf() ==> builder.builder.wf(),
    {
        let Builder {
            render,
            builder: super::Builder {
                model: _,
                sample_rate,
                channels,
                frames_per_buffer,
                device,
                sample_format,
                equilibrium,
            },
        } = self;
        Builder {
            render,
            builder: super::Builder {
                model,
                sample_rate,
                channels,
                frames_per_buffer,
                device,
                sample_format,
                equilibrium,
            },
        }
    }

    /// Specify the function that renders the buffers of audio. All else stays
    /// as it was asked.
    pub fn render<F2>(self, render: F2) -> (builder: Builder<M, S, F2>)
        ensures
            builder.render == render,
            builder.builder == self.builder,
    {
        let Builder { render: _, builder } = self;
        Builder { render, builder }
    }

    /// Asks for a sample rate, in frames per second.
    pub fn sample_rate(self, sample_rate: u32) -> (builder: Self)
        requires
            sample_rate > 0,
        ensures
            builder.builder.sample_rate == Some(sample_rate),
            builder.render == self.render,
            builder.builder.model == self.builder.model,
            builder.builder.channels == self.builder.channels,
            builder.builder.frames_per_buffer == self.builder.frames_per_buffer,
            builder.builder.device == self.builder.device,
            builder.builder.sample_format == self.builder.sample_format,
            builder.builder.equilibrium == self.builder.equilibrium,
            self.builder.wf() ==> builder.builder.wf(),
    {
        let mut builder = self;
        builder.builder.sample_rate = Some(sample_rate);
        builder
    }

    /// Asks for a number of channels.
    pub fn channels(self, channels: usize) -> (builder: Self)
        requires
            channels > 0,
        ensures
            builder.builder.channels == Some(channels),
            builder.render == self.render,
            builder.builder.model == self.builder.model,
            builder.builder.sample_rate == self.builder.sample_rate,
            builder.builder.frames_per_buffer == self.builder.frames_per_buffer,
            builder.builder.device == self.builder.device,
            builder.builder.sample_format == self.builder.sample_format,
            builder.builder.equilibrium == self.builder.equilibrium,
            self.builder.wf() ==> builder.builder.wf(),
    {
        let mut builder = self;
        builder.builder.channels = Some(channels);
        builder
    }

    /// Asks for a device, in place of the host's default device.
    pub fn device(self, device: Device) -> (builder: Self)
        ensures
            builder.builder.device == Some(device),
            builder.render == self.render,
            builder.builder.model == self.builder.model,
            builder.builder.sample_rate == self.builder.sample_rate,
            builder.builder.channels == self.builder.channels,
            builder.builder.frames_per_buffer == self.builder.frames_per_buffer,
            builder.builder.sample_format == self.builder.sample_format,
            builder.builder.equilibrium == self.builder.equilibrium,
            self.builder.wf() ==> builder.builder.wf(),
    {
        let mut builder = self;
        builder.builder.device = Some(device);
        builder
    }

    /// Asks for the length, in frames, of the buffers that the render function
    /// is given.
    pub fn frames_per_buffer(self, frames_per_buffer: usize) -> (builder: Self)
        requires
            frames_per_buffer > 0,
            frames_per_buffer * u16::MAX <= usize::MAX,
        ensures
            builder.builder.frames_per_buffer == Some(frames_per_buffer),
            builder.render == self.render,
            builder.builder.model == self.builder.model,
            builder.builder.sample_rate == self.builder.sample_rate,
            builder.builder.channels == self.builder.channels,
            builder.builder.device == self.builder.device,
            builder.builder.sample_format == self.builder.sample_format,
            builder.builder.equilibrium == self.builder.equilibrium,
            self.builder.wf() ==> builder.builder.wf(),
    {
        let mut builder = self;
        builder.builder.frames_per_buffer = Some(frames_per_buffer);
        builder
    }
}

impl<M, S: Copy, F: RenderFn<M, S>> Builder<M, S, F> {
    /// `result` is what building gives once the host has answered the request
    /// to register the stream with `registration`: the host's refusal as an
    /// error, or else a running stream under the name that the host gave it,
    /// with the model and the format, no update on its way, and nothing
    /// rendered yet.
    pub open spec fn built<U: FnOnce(M) -> M>(
        self,
        format: Format,
        registration: Result<StreamId, String>,
        result: Result<(Stream<M, U>, Output<S, F>), BuildError>,
    ) -> bool {
        match registration {
            Err(cause) => result == Err::<(Stream<M, U>, Output<S, F>), BuildError>(
                BuildError::Hardware(cause),
            ),
            Ok(stream_id) => {
                &&& result is Ok
                &&& result->Ok_0.0.wf()
                &&& result->Ok_0.0.spec_model() == self.builder.model
                &&& result->Ok_0.0.spec_state() == State::Running
                &&& result->Ok_0.0.spec_id() == stream_id
                &&& result->Ok_0.0.spec_format() == format
                &&& result->Ok_0.0.pending_updates() == Seq::<U>::empty()
                &&& result->Ok_0.1.wf()
                &&& result->Ok_0.1.spec_render() == self.render
                &&& result->Ok_0.1.spec_sample_rate() == format.sample_rate
                &&& result->Ok_0.1.spec_equilibrium() == self.builder.equilibrium
                &&& result->Ok_0.1.spec_num_frames() == self.builder.frames()
                &&& result->Ok_0.1.spec_num_channels() == format.channels
                &&& result->Ok_0.1.pending() == Seq::<S>::empty()
                &&& result->Ok_0.1@ == Seq::<S>::empty()
            },
        }
    }

    /// Makes the stream once the host has answered the request to register
    /// it: see `built`.
    pub fn finish<U: FnOnce(M) -> M>(
        self,
        format: Format,
        registration: Result<StreamId, String>,
    ) -> (result: Result<(Stream<M, U>, Output<S, F>), BuildError>)
        requires
            self.builder.wf(),
            format.channels > 0,
        ensures
            self.built(format, registration, result),
    {
        let stream_id = match registration {
            Ok(stream_id) => stream_id,
            Err(cause) => {
                return Err(BuildError::Hardware(cause));
            },
        };
        let Builder { render, builder } = self;
        let frames_per_buffer = match builder.frames_per_buffer {
            Some(frames) => frames,
            None => DEFAULT_LEN_FRAMES,
        };
        let num_channels = format.channels as usize;
        assert(frames_per_buffer * num_channels <= usize::MAX) by (nonlinear_arith)
            requires
                frames_per_buffer * u16::MAX <= usize::MAX,
                num_channels <= u16::MAX,
                frames_per_buffer >= 0,
        ;
        let requester = Requester::new(frames_per_buffer, num_channels, builder.equilibrium);
        let stream = Stream::new(builder.model, stream_id, format);
        let output = Output { render, requester, samples: Vec::new(), sample_rate: format.sample_rate };
        Ok((stream, output))
    }

    /// Builds the stream: settles its device and its format, has the host
    /// register it, and makes it.
    ///
    /// Fails with `BuildError::DefaultDevice` when no device was given and
    /// `default_device` is `None`, and with `BuildError::FormatUnsupported`
    /// when the device supports no format with the requested encoding and
    /// channel count. In both cases `register` is not called. Otherwise
    /// `register` is called once, with the device and the format that was
    /// negotiated; what the host answers decides between
    /// `BuildError::Hardware` and the stream, as `built` tells.
    pub fn build<U: FnOnce(M) -> M, R: FnOnce(&Device, &Format) -> Result<StreamId, String>>(
        self,
        default_device: Option<Device>,
        register: R,
    ) -> (result: Result<(Stream<M, U>, Output<S, F>), BuildError>)
        requires
            self.builder.wf(),
            forall|device: Device, format: Format| call_requires(register, (&device, &format)),
        ensures
            match self.builder.planned(default_device) {
                Err(error) => result == Err::<(Stream<M, U>, Output<S, F>), BuildError>(error),
                Ok((device, format)) => exists|registration: Result<StreamId, String>|
                    #[trigger] call_ensures(register, (&device, &format), registration)
                        && self.built(format, registration, result),
            },
    {
        let (format, registration) = match self.builder.resolve_device(&default_device) {
            None => {
                return Err(BuildError::DefaultDevice);
            },
            Some(device) => {
                let format = match self.builder.negotiate(device) {
                    Ok(format) => format,
                    Err(error) => {
                        return Err(error);
                    },
                };
                (format, register(device, &format))
            },
        };
        proof {
            super::matching::lemma_negotiated_is_supported(
                self.builder.request(),
                self.builder.resolved_device(default_device)->0.default_format,
                self.builder.resolved_device(default_device)->0.supported_formats@,
            );
        }
        self.finish(format, registration)
    }
}

impl<S: Copy, F> Output<S, F> {
    /// The samples made ready for the hardware at the last call.
    pub closed spec fn view(&self) -> Seq<S> {
        self.samples@
    }

    /// The render function.
    pub closed spec fn spec_render(&self) -> F {
        self.render
    }

    /// The sample rate of the stream.
    pub closed spec fn spec_sample_rate(&self) -> u32 {
        self.sample_rate
    }

    /// The sample that stands for silence.
    pub closed spec fn spec_equilibrium(&self) -> S {
        self.requester.spec_equilibrium()
    }

    /// The number of frames in each buffer given to the render function.
    pub closed spec fn spec_num_frames(&self) -> usize {
        self.requester.spec_num_frames()
    }

    /// The number of channels in each frame.
    pub closed spec fn spec_num_channels(&self) -> usize {
        self.requester.spec_num_channels()
    }

    /// The samples of the buffer rendered last that the hardware has not been
    /// given yet.
    pub closed spec fn pending(&self) -> Seq<S> {
        self.requester.pending()
    }

    /// What the render function is given at every call.
    pub closed spec fn shape(&self) -> Shape<S> {
        self.requester.shape(self.sample_rate)
    }

    /// The requester is sound.
    pub closed spec fn wf(&self) -> bool {
        self.requester.wf()
    }

    /// The render function, the sample rate, silence and the length of the
    /// buffers are those of `before`.
    pub open spec fn same_stream_as(&self, before: &Self) -> bool {
        &&& self.spec_render() == before.spec_render()
        &&& self.spec_sample_rate() == before.spec_sample_rate()
        &&& self.spec_equilibrium() == before.spec_equilibrium()
        &&& self.spec_num_frames() == before.spec_num_frames()
        &&& self.spec_num_channels() == before.spec_num_channels()
        &&& self.shape() == before.shape()
    }

    /// `len` samples of silence.
    pub open spec fn silence(&self, len: nat) -> Seq<S> {
        Seq::new(len, |i: int| self.spec_equilibrium())
    }

    /// The samples made ready for the hardware at the last call.
    pub fn samples(&self) -> (samples: &Vec<S>)
        ensures
            samples@ == self@,
    {
        &self.samples
    }
}

impl<S: Copy, F> Output<S, F> {
    /// Makes `len` samples ready for the hardware.
    ///
    /// On a running stream they are the samples that come next, and the model
    /// is as the render function left it. On a paused or closed stream they
    /// are silence: nothing is rendered, and the model and what is pending
    /// stay as they are. The updates on their way are not touched.
    pub fn render_buffer<M, U: FnOnce(M) -> M>(&mut self, stream: &mut Stream<M, U>, len: usize)
        where F: RenderFn<M, S>
        requires
            old(self).wf(),
            old(stream).wf(),
        ensures
            final(self).wf(),
            final(stream).wf(),
            final(self).same_stream_as(old(self)),
            final(stream).spec_state() == old(stream).spec_state(),
            final(stream).spec_id() == old(stream).spec_id(),
            final(stream).spec_format() == old(stream).spec_format(),
            final(stream).pending_updates() == old(stream).pending_updates(),
            old(stream).spec_state() == State::Running ==> {
                let result = filled(
                    old(self).spec_render(),
                    old(stream).spec_model(),
                    old(self).pending(),
                    old(self).shape(),
                    len as nat,
                );
                &&& final(self)@ == result.output
                &&& final(self).pending() == result.pending
                &&& final(stream).spec_model() == result.model
            },
            old(stream).spec_state() != State::Running ==> {
                &&& final(self)@ == old(self).silence(len as nat)
                &&& final(self).pending() == old(self).pending()
                &&& final(stream).spec_model() == old(stream).spec_model()
            },
    {
        fill_silence(&mut self.samples, len, self.requester.equilibrium());
        match stream.state() {
            State::Running => {
                let model = stream.take_model();
                let model = self.requester.fill_buffer(
                    model,
                    &self.render,
                    self.samples.as_mut_slice(),
                    self.sample_rate,
                );
                stream.put_model(model);
            },
            _ => {},
        }
    }

    /// Does all that one call of the hardware asks for: applies the updates
    /// that have been sent, makes `len` samples ready as `render_buffer` does,
    /// and applies the updates in `arriving`, which were sent while that was
    /// done.
    ///
    /// The updates are applied in the order in which they were sent, each
    /// once, and none of them while the buffer is rendered; none is left
    /// waiting. On a paused stream they are applied all the same. On a closed
    /// stream none is applied: those that arrive wait behind those that were
    /// waiting.
    pub fn process<M, U: FnOnce(M) -> M>(
        &mut self,
        stream: &mut Stream<M, U>,
        len: usize,
        arriving: Vec<U>,
    )
        where F: RenderFn<M, S>
        requires
            old(self).wf(),
            old(stream).wf(),
            forall|i: int| 0 <= i < arriving@.len() ==> takes_any_model(#[trigger] arriving@[i]),
        ensures
            final(self).wf(),
            final(stream).wf(),
            final(self).same_stream_as(old(self)),
            final(stream).spec_state() == old(stream).spec_state(),
            final(stream).spec_id() == old(stream).spec_id(),
            final(stream).spec_format() == old(stream).spec_format(),
            old(stream).spec_state() == State::Running ==> exists|before: M|
                {
                    let result = filled(
                        old(self).spec_render(),
                        before,
                        old(self).pending(),
                        old(self).shape(),
                        len as nat,
                    );
                    &&& #[trigger] updates_lead(
                        old(stream).pending_updates(),
                        old(stream).spec_model(),
                        before,
                    )
                    &&& final(self)@ == result.output
                    &&& final(self).pending() == result.pending
                    &&& updates_lead(arriving@, result.model, final(stream).spec_model())
                    &&& final(stream).pending_updates() == Seq::<U>::empty()
                },
            old(stream).spec_state() == State::Paused ==> {
                &&& updates_lead(
                    old(stream).pending_updates() + arriving@,
                    old(stream).spec_model(),
                    final(stream).spec_model(),
                )
                &&& final(self)@ == old(self).silence(len as nat)
                &&& final(self).pending() == old(self).pending()
                &&& final(stream).pending_updates() == Seq::<U>::empty()
            },
            old(stream).spec_state() == State::Closed ==> {
                &&& final(stream).spec_model() == old(stream).spec_model()
                &&& final(self)@ == old(self).silence(len as nat)
                &&& final(self).pending() == old(self).pending()
                &&& final(stream).pending_updates() == old(stream).pending_updates() + arriving@
            },
    {
        stream.process_pending_updates();
        let ghost before = stream.spec_model();
        self.render_buffer(stream, len);
        stream.send_updates(arriving);
        stream.process_pending_updates();
        proof {
            if old(stream).spec_state() == State::Paused {
                assert(Seq::<U>::empty() + arriving@ =~= arriving@);
                super::lemma_updates_lead_in_a_row(
                    old(stream).pending_updates(),
                    arriving@,
                    old(stream).spec_model(),
                    stream.spec_model(),
                );
                assert(updates_lead(old(stream).pending_updates(), old(stream).spec_model(), before)
                    && updates_lead(arriving@, before, stream.spec_model()));
            }
            if old(stream).spec_state() == State::Running {
                assert(Seq::<U>::empty() + arriving@ =~= arriving@);
                assert(updates_lead(old(stream).pending_updates(), old(stream).spec_model(), before));
            }
        }
    }
}

/// Copies `buffer` into `output`, which the hardware takes, sample by sample
/// through `convert`, as far as the shorter of the two goes. What `output`
/// holds beyond that stays as it is.
pub fn fill_output<O, S: Copy, C: Fn(S) -> O>(output: &mut [O], buffer: &[S], convert: &C)
    requires
        forall|sample: S| call_requires(*convert, (sample,)),
    ensures
        final(output)@.len() == old(output)@.len(),
        forall|i: int|
            0 <= i < old(output)@.len() && i < buffer@.len() ==> call_ensures(
                *convert,
                (buffer@[i],),
                #[trigger] final(output)@[i],
            ),
        forall|i: int|
            buffer@.len() <= i < old(output)@.len() ==> #[trigger] final(output)@[i] == old(
                output,
            )@[i],
{
    let len = if output.len() < buffer.len() {
        output.len()
    } else {
        buffer.len()
    };
    let mut i: usize = 0;
    while i < len
        invariant
            i <= len,
            len <= buffer@.len(),
            len <= output@.len(),
            output@.len() == old(output)@.len(),
            forall|sample: S| call_requires(*convert, (sample,)),
            forall|j: int|
                0 <= j < i ==> call_ensures(*convert, (buffer@[j],), #[trigger] output@[j]),
            forall|j: int| i <= j < output@.len() ==> #[trigger] output@[j] == old(output)@[j],
        decreases len - i,
    {
        let converted = convert(buffer[i]);
        output[i] = converted;
        i += 1;
    }
}

} // verus!
