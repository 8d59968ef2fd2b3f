//! Input streams: the capture function that takes the audio in, the builder
//! of a stream that captures it, and what is done each time the hardware
//! delivers a buffer.

use super::{takes_any_model, updates_lead, BuildError, State, Stream, StreamId};
use crate::audio::buffer::{Buffer, DEFAULT_LEN_FRAMES};
use crate::audio::device::{Device, Format, SampleFormat};
use crate::audio::receiver::{received, Form, Receiver};
use vstd::prelude::*;

verus! {

/// The function that is called when a `Buffer` of captured audio is ready.
///
/// The buffer has the stream's channel count and sample rate and the length
/// that the stream was built with. What the function makes of the model
/// depends on nothing but the model and the buffer it was given.
pub trait CaptureFn<M, S: Copy> {
    /// The model after one call. Unless a capture function says otherwise, it
    /// leaves the model as it is.
    open spec fn model_after(&self, model: M, samples: Seq<S>, channels: usize, sample_rate: u32) -> M {
        model
    }

    /// Takes one buffer of captured audio into the model.
    fn capture(&self, model: &mut M, buffer: &Buffer<S>)
        requires
            buffer.wf(),
        ensures
            *final(model) == self.model_after(
                *old(model),
                buffer@,
                buffer.spec_channels(),
                buffer.spec_sample_rate(),
            ),
    ;
}

/// The capture function of a stream that was given none: it lets the audio
/// pass.
pub fn default_capture_fn<S: Copy>(_model: &mut (), _buffer: &Buffer<S>)
    ensures
        *final(_model) == *old(_model),
{
}

/// `default_capture_fn` as a value that a stream can hold.
pub struct DefaultCaptureFn;

impl<S: Copy> CaptureFn<(), S> for DefaultCaptureFn {
    open spec fn model_after(
        &self,
        model: (),
        samples: Seq<S>,
        channels: usize,
        sample_rate: u32,
    ) -> () {
        model
    }

    fn capture(&self, model: &mut (), buffer: &Buffer<S>) {
        default_capture_fn(model, buffer);
    }
}

/// Collects what is asked of an input stream, and builds it.
pub struct Builder<M, S, F> {
    pub builder: super::Builder<M, S>,
    pub capture: F,
}

/// The side of an input stream that the hardware calls: the capture function
/// and the receiver that gathers buffers for it.
pub struct Input<S, F> {
    capture: F,
    receiver: Receiver<S>,
    sample_rate: u32,
}

impl<S: Copy> Builder<(), S, DefaultCaptureFn> {
    /// A builder of a stream of samples of type `S`, which the hardware is to
    /// deliver in the encoding `sample_format` and among which `equilibrium`
    /// is silence. Until more is said, the stream has no model, lets the audio
    /// pass, and leaves everything else to the device.
    pub fn new(sample_format: SampleFormat, equilibrium: S) -> (builder: Self)
        ensures
            builder.builder.wf(),
            builder.builder.sample_rate is None,
            builder.builder.channels is None,
            builder.builder.frames_per_buffer is None,
            builder.builder.device is None,
            builder.builder.sample_format == sample_format,
            builder.builder.equilibrium == equilibrium,
    {
        Builder {
            builder: super::Builder {
                model: (),
                sample_rate: None,
                channels: None,
                frames_per_buffer: None,
                device: None,
                sample_format,
                equilibrium,
            },
            capture: DefaultCaptureFn,
        }
    }
}

impl<M, S: Copy, F> Builder<M, S, F> {
    /// The "model" that represents the state of the program on the audio
    /// thread. All else stays as it was asked.
    pub fn model<M2>(self, model: M2) -> (builder: Builder<M2, S, F>)
        ensures
            builder.builder.model == model,
            builder.capture == self.capture,
            builder.builder.sample_rate == self.builder.sample_rate,
            builder.builder.channels == self.builder.channels,
            builder.builder.frames_per_buffer == self.builder.frames_per_buffer,
            builder.builder.device == self.builder.device,
            builder.builder.sample_format == self.builder.sample_format,
            builder.builder.equilibrium == self.builder.equilibrium,
            self.builder.wf() ==> builder.builder.wf(),
    {
        let Builder {
            capture,
            builder: super::Builder {
                model: _,
                sample_rate,
                channels,
                frames_per_buffer,
                device,
                sample_format,
                equilibrium,
            },
        } = self;
        Builder {
            capture,
            builder: super::Builder {
                model,
                sample_rate,
                channels,
                frames_per_buffer,
                device,
                sample_format,
                equilibrium,
            },
        }
    }

    /// Specify the function that takes in the buffers of captured audio. All
    /// else stays as it was asked.
    pub fn capture<F2>(self, capture: F2) -> (builder: Builder<M, S, F2>)
        ensures
            builder.capture == capture,
            builder.builder == self.builder,
    {
        let Builder { capture: _, builder } = self;
        Builder { capture, builder }
    }

    /// Asks for a sample rate, in frames per second.
    pub fn sample_rate(self, sample_rate: u32) -> (builder: Self)
        requires
            sample_rate > 0,
        ensures
            builder.builder.sample_rate == Some(sample_rate),
            builder.capture == self.capture,
            builder.builder.model == self.builder.model,
            builder.builder.channels == self.builder.channels,
            builder.builder.frames_per_buffer == self.builder.frames_per_buffer,
            builder.builder.device == self.builder.device,
            builder.builder.sample_format == self.builder.sample_format,
            builder.builder.equilibrium == self.builder.equilibrium,
            self.builder.wf() ==> builder.builder.wf(),
    {
        let mut builder = self;
        builder.builder.sample_rate = Some(sample_rate);
        builder
    }

    /// Asks for a number of channels.
    pub fn channels(self, channels: usize) -> (builder: Self)
        requires
            channels > 0,
        ensures
            builder.builder.channels == Some(channels),
            builder.capture == self.capture,
            builder.builder.model == self.builder.model,
            builder.builder.sample_rate == self.builder.sample_rate,
            builder.builder.frames_per_buffer == self.builder.frames_per_buffer,
            builder.builder.device == self.builder.device,
            builder.builder.sample_format == self.builder.sample_format,
            builder.builder.equilibrium == self.builder.equilibrium,
            self.builder.wf() ==> builder.builder.wf(),
    {
        let mut builder = self;
        builder.builder.channels = Some(channels);
        builder
    }

    /// Asks for a device, in place of the host's default device.
    pub fn device(self, device: Device) -> (builder: Self)
        ensures
            builder.builder.device == Some(device),
            builder.capture == self.capture,
            builder.builder.model == self.builder.model,
            builder.builder.sample_rate == self.builder.sample_rate,
            builder.builder.channels == self.builder.channels,
            builder.builder.frames_per_buffer == self.builder.frames_per_buffer,
            builder.builder.sample_format == self.builder.sample_format,
            builder.builder.equilibrium == self.builder.equilibrium,
            self.builder.wf() ==> builder.builder.wf(),
    {
        let mut builder = self;
        builder.builder.device = Some(device);
        builder
    }

    /// Asks for the length, in frames, of the buffers that the capture
    /// function is given.
    pub fn frames_per_buffer(self, frames_per_buffer: usize) -> (builder: Self)
        requires
            frames_per_buffer > 0,
            frames_per_buffer * u16::MAX <= usize::MAX,
        ensures
            builder.builder.frames_per_buffer == Some(frames_per_buffer),
            builder.capture == self.capture,
            builder.builder.model == self.builder.model,
            builder.builder.sample_rate == self.builder.sample_rate,
            builder.builder.channels == self.builder.channels,
            builder.builder.device == self.builder.device,
            builder.builder.sample_format == self.builder.sample_format,
            builder.builder.equilibrium == self.builder.equilibrium,
            self.builder.wf() ==> builder.builder.wf(),
    {
        let mut builder = self;
        builder.builder.frames_per_buffer = Some(frames_per_buffer);
        builder
    }
}

impl<M, S: Copy, F: CaptureFn<M, S>> Builder<M, S, F> {
    /// `result` is what building gives once the host has answered the request
    /// to register the stream with `registration`: the host's refusal as an
    /// error, or else a running stream under the name that the host gave it,
    /// with the model and the format, no update on its way, and nothing
    /// captured yet.
    pub open spec fn built<U: FnOnce(M) -> M>(
        self,
        format: Format,
        registration: Result<StreamId, String>,
        result: Result<(Stream<M, U>, Input<S, F>), BuildError>,
    ) -> bool {
        match registration {
            Err(cause) => result == Err::<(Stream<M, U>, Input<S, F>), BuildError>(
                BuildError::Hardware(cause),
            ),
            Ok(stream_id) => {
                &&& result is Ok
                &&& result->Ok_0.0.wf()
                &&& result->Ok_0.0.spec_model() == self.builder.model
                &&& result->Ok_0.0.spec_state() == State::Running
                &&& result->Ok_0.0.spec_id() == stream_id
                &&& result->Ok_0.0.spec_format() == format
                &&& result->Ok_0.0.pending_updates() == Seq::<U>::empty()
                &&& result->Ok_0.1.wf()
                &&& result->Ok_0.1.spec_capture() == self.capture
                &&& result->Ok_0.1.spec_sample_rate() == format.sample_rate
                &&& result->Ok_0.1.spec_num_frames() == self.builder.frames()
                &&& result->Ok_0.1.spec_num_channels() == format.channels
                &&& result->Ok_0.1.pending() == Seq::<S>::empty()
            },
        }
    }

    /// Makes the stream once the host has answered the request to register
    /// it: see `built`.
    pub fn finish<U: FnOnce(M) -> M>(
        self,
        format: Format,
        registration: Result<StreamId, String>,
    ) -> (result: Result<(Stream<M, U>, Input<S, F>), BuildError>)
        requires
            self.builder.wf(),
            format.channels > 0,
        ensures
            self.built(format, registration, result),
    {
        let stream_id = match registration {
            Ok(stream_id) => stream_id,
            Err(cause) => {
                return Err(BuildError::Hardware(cause));
            },
        };
        let Builder { capture, builder } = self;
        let frames_per_buffer = match builder.frames_per_buffer {
            Some(frames) => frames,
            None => DEFAULT_LEN_FRAMES,
        };
        let num_channels = format.channels as usize;
        assert(frames_per_buffer * num_channels <= usize::MAX) by (nonlinear_arith)
            requires
                frames_per_buffer * u16::MAX <= usize::MAX,
                num_channels <= u16::MAX,
                frames_per_buffer >= 0,
        ;
        let receiver = Receiver::new(frames_per_buffer, num_channels, builder.equilibrium);
        let stream = Stream::new(builder.model, stream_id, format);
        let input = Input { capture, receiver, sample_rate: format.sample_rate };
        Ok((stream, input))
    }

    /// Builds the stream: settles its device and its format, has the host
    /// register it, and makes it.
    ///
    /// Fails with `BuildError::DefaultDevice` when no device was given and
    /// `default_device` is `None`, and with `BuildError::FormatUnsupported`
    /// when the device supports no format with the requested encoding and
    /// channel count. In both cases `register` is not called. Otherwise
    /// `register` is called once, with the device and the format that was
    /// negotiated; what the host answers decides between
    /// `BuildError::Hardware` and the stream, as `built` tells.
    pub fn build<U: FnOnce(M) -> M, R: FnOnce(&Device, &Format) -> Result<StreamId, String>>(
        self,
        default_device: Option<Device>,
        register: R,
    ) -> (result: Result<(Stream<M, U>, Input<S, F>), BuildError>)
        requires
            self.builder.wf(),
            forall|device: Device, format: Format| call_requires(register, (&device, &format)),
        ensures
            match self.builder.planned(default_device) {
                Err(error) => result == Err::<(Stream<M, U>, Input<S, F>), BuildError>(error),
                Ok((device, format)) => exists|registration: Result<StreamId, String>|
                    #[trigger] call_ensures(register, (&device, &format), registration)
                        && self.built(format, registration, result),
            },
    {
        let (format, registration) = match self.builder.resolve_device(&default_device) {
            None => {
                return Err(BuildError::DefaultDevice);
            },
            Some(device) => {
                let format = match self.builder.negotiate(device) {
                    Ok(format) => format,
                    Err(error) => {
                        return Err(error);
                    },
                };
                (format, register(device, &format))
            },
        };
        proof {
            super::matching::lemma_negotiated_is_supported(
                self.builder.request(),
                self.builder.resolved_device(default_device)->0.default_format,
                self.builder.resolved_device(default_device)->0.supported_formats@,
            );
        }
        self.finish(format, registration)
    }
}

impl<S: Copy, F> Input<S, F> {
    /// The capture function.
    pub closed spec fn spec_capture(&self) -> F {
        self.capture
    }

    /// The sample rate of the stream.
    pub closed spec fn spec_sample_rate(&self) -> u32 {
        self.sample_rate
    }

    /// The number of frames in each buffer given to the capture function.
    pub closed spec fn spec_num_frames(&self) -> usize {
        self.receiver.spec_num_frames()
    }

    /// The number of channels in each frame.
    pub closed spec fn spec_num_channels(&self) -> usize {
        self.receiver.spec_num_channels()
    }

    /// The captured samples that have not filled a buffer yet.
    pub closed spec fn pending(&self) -> Seq<S> {
        self.receiver.pending()
    }

    /// The form of the buffers that the capture function is given.
    pub closed spec fn form(&self) -> Form {
        self.receiver.form(self.sample_rate)
    }

    /// The receiver is sound.
    pub closed spec fn wf(&self) -> bool {
        self.receiver.wf()
    }

    /// The capture function, the sample rate and the length of the buffers are
    /// those of `before`.
    pub open spec fn same_stream_as(&self, before: &Self) -> bool {
        &&& self.spec_capture() == before.spec_capture()
        &&& self.spec_sample_rate() == before.spec_sample_rate()
        &&& self.spec_num_frames() == before.spec_num_frames()
        &&& self.spec_num_channels() == before.spec_num_channels()
        &&& self.form() == before.form()
    }

    /// Takes in the samples that the hardware has delivered.
    ///
    /// On a running stream they are gathered behind those that are pending,
    /// and the capture function is given every buffer that they fill. On a
    /// paused or closed stream they are let go: nothing is captured, and the
    /// model and what is pending stay as they are. The updates on their way
    /// are not touched.
    pub fn capture_buffer<M, U: FnOnce(M) -> M>(&mut self, stream: &mut Stream<M, U>, input: &[S])
        where F: CaptureFn<M, S>
        requires
            old(self).wf(),
            old(stream).wf(),
        ensures
            final(self).wf(),
            final(stream).wf(),
            final(self).same_stream_as(old(self)),
            final(stream).spec_state() == old(stream).spec_state(),
            final(stream).spec_id() == old(stream).spec_id(),
            final(stream).spec_format() == old(stream).spec_format(),
            final(stream).pending_updates() == old(stream).pending_updates(),
            old(stream).spec_state() == State::Running ==> {
                let result = received(
                    old(self).spec_capture(),
                    old(stream).spec_model(),
                    old(self).pending(),
                    input@,
                    old(self).form(),
                );
                &&& final(self).pending() == result.pending
                &&& final(stream).spec_model() == result.model
            },
            old(stream).spec_state() != State::Running ==> {
                &&& final(self).pending() == old(self).pending()
                &&& final(stream).spec_model() == old(stream).spec_model()
            },
    {
        match stream.state() {
            State::Running => {
                let model = stream.take_model();
                let model = self.receiver.read_buffer(model, &self.capture, input, self.sample_rate);
                stream.put_model(model);
            },
            _ => {},
        }
    }

    /// Does all that one call of the hardware asks for: applies the updates
    /// that have been sent, takes in the samples as `capture_buffer` does, and
    /// applies the updates in `arriving`, which were sent while that was done.
    ///
    /// The updates are applied in the order in which they were sent, each
    /// once, and none of them while a buffer is captured; none is left
    /// waiting. On a paused stream they are applied all the same. On a closed
    /// stream none is applied: those that arrive wait behind those that were
    /// waiting.
    pub fn process<M, U: FnOnce(M) -> M>(
        &mut self,
        stream: &mut Stream<M, U>,
        input: &[S],
        arriving: Vec<U>,
    )
        where F: CaptureFn<M, S>
        requires
            old(self).wf(),
            old(stream).wf(),
            forall|i: int| 0 <= i < arriving@.len() ==> takes_any_model(#[trigger] arriving@[i]),
        ensures
            final(self).wf(),
            final(stream).wf(),
            final(self).same_stream_as(old(self)),
            final(stream).spec_state() == old(stream).spec_state(),
            final(stream).spec_id() == old(stream).spec_id(),
            final(stream).spec_format() == old(stream).spec_format(),
            old(stream).spec_state() == State::Running ==> exists|before: M|
                {
                    let result = received(
                        old(self).spec_capture(),
                        before,
                        old(self).pending(),
                        input@,
                        old(self).form(),
                    );
                    &&& #[trigger] updates_lead(
                        old(stream).pending_updates(),
                        old(stream).spec_model(),
                        before,
                    )
                    &&& final(self).pending() == result.pending
                    &&& updates_lead(arriving@, result.model, final(stream).spec_model())
                    &&& final(stream).pending_updates() == Seq::<U>::empty()
                },
            old(stream).spec_state() == State::Paused ==> {
                &&& updates_lead(
                    old(stream).pending_updates() + arriving@,
                    old(stream).spec_model(),
                    final(stream).spec_model(),
                )
                &&& final(self).pending() == old(self).pending()
                &&& final(stream).pending_updates() == Seq::<U>::empty()
            },
            old(stream).spec_state() == State::Closed ==> {
                &&& final(stream).spec_model() == old(stream).spec_model()
                &&& final(self).pending() == old(self).pending()
                &&& final(stream).pending_updates() == old(stream).pending_updates() + arriving@
            },
    {
        stream.process_pending_updates();
        let ghost before = stream.spec_model();
        self.capture_buffer(stream, input);
        stream.send_updates(arriving);
        stream.process_pending_updates();
        proof {
            assert(Seq::<U>::empty() + arriving@ =~= arriving@);
            if old(stream).spec_state() == State::Paused {
                super::lemma_updates_lead_in_a_row(
                    old(stream).pending_updates(),
                    arriving@,
                    old(stream).spec_model(),
                    stream.spec_model(),
                );
                assert(updates_lead(old(stream).pending_updates(), old(stream).spec_model(), before)
                    && updates_lead(arriving@, before, stream.spec_model()));
            }
            if old(stream).spec_state() == State::Running {
                assert(updates_lead(old(stream).pending_updates(), old(stream).spec_model(), before));
            }
        }
    }
}

/// The samples that the hardware has delivered, each brought into the
/// stream's sample type through `convert`, in their order.
pub fn convert_input<I: Copy, S, C: Fn(I) -> S>(input: &[I], convert: &C) -> (samples: Vec<S>)
    requires
        forall|sample: I| call_requires(*convert, (sample,)),
    ensures
        samples@.len() == input@.len(),
        forall|i: int|
            0 <= i < input@.len() ==> call_ensures(*convert, (input@[i],), #[trigger] samples@[i]),
{
    let mut samples: Vec<S> = Vec::with_capacity(input.len());
    let mut i: usize = 0;
    while i < input.len()
        invariant
            i <= input@.len(),
            samples@.len() == i,
            forall|sample: I| call_requires(*convert, (sample,)),
            forall|j: int|
                0 <= j < i ==> call_ensures(*convert, (input@[j],), #[trigger] samples@[j]),
        decreases input@.len() - i,
    {
        samples.push(convert(input[i]));
        i += 1;
    }
    samples
}

} // verus!
