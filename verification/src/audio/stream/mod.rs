//! Streams: building one, negotiating its format, and the handle by which a
//! running stream is paused, resumed, updated and closed.
//!
//! A stream has two sides. The handle is held by whoever controls the stream:
//! it pauses, resumes and closes the stream and sends updates for the model.
//! The other side is called by the hardware, once for every buffer that it
//! wants or delivers: it applies the updates that have been sent, renders or
//! captures, and applies the updates that were sent meanwhile. Updates are
//! applied in the order in which they were sent, each once, and never while a
//! buffer is being rendered or captured.

pub mod input;
pub mod matching;
pub mod output;

pub use self::matching::{find_best_matching_format, Request};

use self::matching::{negotiated, outcome};
use crate::audio::buffer::{DEFAULT_LEN_FRAMES, DEFAULT_SAMPLE_RATE};
use crate::audio::device::{Device, Format, SampleFormat};
use vstd::prelude::*;

verus! {

/// Why no stream could be built.
#[derive(Clone, Debug, PartialEq, Eq)]
pub enum BuildError {
    /// No device was given and the host has no default device.
    DefaultDevice,
    /// The device supports no format with the requested channel count and
    /// sample encoding.
    FormatUnsupported,
    /// The host refused to register the stream; the cause is the host's own
    /// account of it.
    Hardware(String),
}

/// What has been asked of a stream that is being built: the wishes that input
/// and output streams share.
///
/// A sample rate, a channel count and a buffer length that are given are never
/// zero.
pub struct Builder<M, S> {
    /// The state that the render or capture function works on.
    pub model: M,
    pub sample_rate: Option<u32>,
    pub channels: Option<usize>,
    pub frames_per_buffer: Option<usize>,
    pub device: Option<Device>,
    /// The encoding in which the hardware is to take or deliver the samples.
    pub sample_format: SampleFormat,
    /// The sample that stands for silence.
    pub equilibrium: S,
}

impl<M, S> Builder<M, S> {
    /// What is given is not zero, and a buffer of the given length fits in
    /// memory with any number of channels that a format can have.
    pub open spec fn wf(self) -> bool {
        &&& self.sample_rate matches Some(rate) ==> rate > 0
        &&& self.channels matches Some(channels) ==> channels > 0
        &&& self.frames_per_buffer matches Some(frames) ==> frames > 0 && frames * u16::MAX
            <= usize::MAX
    }

    /// What the stream asks of its device. A stream that was given no sample
    /// rate asks for `DEFAULT_SAMPLE_RATE`.
    pub open spec fn request(self) -> Request {
        Request {
            sample_format: self.sample_format,
            channels: self.channels,
            sample_rate: Some(
                match self.sample_rate {
                    Some(rate) => rate,
                    None => DEFAULT_SAMPLE_RATE,
                },
            ),
        }
    }

    /// The device of the stream: the one it was given, or else the host's
    /// default device.
    pub open spec fn resolved_device(self, default_device: Option<Device>) -> Option<Device> {
        if self.device is Some {
            self.device
        } else {
            default_device
        }
    }

    /// The length, in frames, of the buffers that the render or capture
    /// function is given: `DEFAULT_LEN_FRAMES` when none was given.
    pub open spec fn frames(self) -> usize {
        match self.frames_per_buffer {
            Some(frames) => frames,
            None => DEFAULT_LEN_FRAMES,
        }
    }

    /// The device and the format with which the stream is to be registered, or
    /// why it cannot be: no device was given and the host has no default
    /// device, or the device supports no format with the requested encoding
    /// and channel count.
    pub open spec fn planned(self, default_device: Option<Device>) -> Result<
        (Device, Format),
        BuildError,
    > {
        match self.resolved_device(default_device) {
            None => Err(BuildError::DefaultDevice),
            Some(device) => match negotiated(
                self.request(),
                device.default_format,
                device.supported_formats@,
            ) {
                None => Err(BuildError::FormatUnsupported),
                Some(format) => Ok((device, format)),
            },
        }
    }

    /// The device of the stream: the one it was given, or else the host's
    /// default device.
    pub fn resolve_device<'a>(&'a self, default_device: &'a Option<Device>) -> (device: Option<
        &'a Device,
    >)
        ensures
            match device {
                Some(device) => self.resolved_device(*default_device) == Some(*device),
                None => self.resolved_device(*default_device) is None,
            },
    {
        match &self.device {
            Some(device) => Some(device),
            None => match default_device {
                Some(device) => Some(device),
                None => None,
            },
        }
    }

    /// The format for the stream on `device`.
    pub fn negotiate(&self, device: &Device) -> (result: Result<Format, BuildError>)
        ensures
            result == outcome(self.request(), device.default_format, device.supported_formats@),
    {
        let sample_rate = match self.sample_rate {
            Some(rate) => rate,
            None => DEFAULT_SAMPLE_RATE,
        };
        find_best_matching_format(
            self.sample_format,
            self.channels,
            Some(sample_rate),
            device.default_format,
            &device.supported_formats,
        )
    }
}

/// The name under which the host knows a stream.
#[derive(Clone, Copy, Debug, PartialEq, Eq, Structural)]
pub struct StreamId(pub usize);

/// Where a stream stands in its life.
#[derive(Clone, Copy, Debug, PartialEq, Eq, Structural)]
pub enum State {
    /// Buffers are rendered or captured.
    Running,
    /// The hardware is given silence, and what it delivers is let go.
    Paused,
    /// The stream has ended. Nothing brings it back.
    Closed,
}

impl State {
    /// The state after a call to pause.
    pub open spec fn after_pause(self) -> State {
        match self {
            State::Closed => State::Closed,
            _ => State::Paused,
        }
    }

    /// The state after a call to resume.
    pub open spec fn after_resume(self) -> State {
        match self {
            State::Closed => State::Closed,
            _ => State::Running,
        }
    }

    /// The state after a call to pause: a closed stream stays closed, any other
    /// is paused.
    pub fn paused(self) -> (state: State)
        ensures
            state == self.after_pause(),
    {
        match self {
            State::Closed => State::Closed,
            _ => State::Paused,
        }
    }

    /// The state after a call to resume: a closed stream stays closed, any
    /// other is running.
    pub fn resumed(self) -> (state: State)
        ensures
            state == self.after_resume(),
    {
        match self {
            State::Closed => State::Closed,
            _ => State::Running,
        }
    }
}

/// Pausing a paused stream changes nothing, and neither does resuming a
/// running one; a closed stream stays closed whatever is asked of it.
pub proof fn lemma_state_changes_once(state: State)
    ensures
        state.after_pause().after_pause() == state.after_pause(),
        state.after_resume().after_resume() == state.after_resume(),
        state == State::Running ==> state.after_pause() == State::Paused,
        state == State::Paused ==> state.after_resume() == State::Running,
        state == State::Closed ==> state.after_pause() == State::Closed && state.after_resume()
            == State::Closed,
        state != State::Closed ==> state.after_pause().after_resume() == State::Running,
{
}

/// `update` may be applied to any model.
pub open spec fn takes_any_model<M, U: FnOnce(M) -> M>(update: U) -> bool {
    forall|model: M| call_requires(update, (model,))
}

/// Applying `updates` one after the other, first one first and each once,
/// can lead from the model `from` to the model `to`.
pub open spec fn updates_lead<M, U: FnOnce(M) -> M>(updates: Seq<U>, from: M, to: M) -> bool
    decreases updates.len(),
{
    if updates.len() == 0 {
        to == from
    } else {
        exists|before_last: M|
            updates_lead(updates.drop_last(), from, before_last) && #[trigger] call_ensures(
                updates.last(),
                (before_last,),
                to,
            )
    }
}

/// One more update, applied to a model that the earlier ones lead to, leads
/// on to what it makes of that model.
pub proof fn lemma_updates_lead_on<M, U: FnOnce(M) -> M>(
    updates: Seq<U>,
    from: M,
    before_last: M,
    to: M,
)
    requires
        updates.len() > 0,
        updates_lead(updates.drop_last(), from, before_last),
        call_ensures(updates.last(), (before_last,), to),
    ensures
        updates_lead(updates, from, to),
{
}

/// Applying `first` and then `second` is applying the two in a row: the
/// model that `first` leads to is the one that `second` starts from.
pub proof fn lemma_updates_lead_in_a_row<M, U: FnOnce(M) -> M>(
    first: Seq<U>,
    second: Seq<U>,
    from: M,
    to: M,
)
    ensures
        updates_lead(first + second, from, to) <==> exists|between: M|
            #[trigger] updates_lead(first, from, between) && updates_lead(second, between, to),
    decreases second.len(),
{
    if second.len() == 0 {
        assert(first + second =~= first);
        if updates_lead(first, from, to) {
            assert(updates_lead(first, from, to) && updates_lead(second, to, to));
        }
    } else {
        let all = first + second;
        assert(all.drop_last() =~= first + second.drop_last());
        assert(all.last() == second.last());
        if updates_lead(all, from, to) {
            let before_last = choose|before_last: M|
                updates_lead(all.drop_last(), from, before_last) && #[trigger] call_ensures(
                    all.last(),
                    (before_last,),
                    to,
                );
            lemma_updates_lead_in_a_row(first, second.drop_last(), from, before_last);
            let between = choose|between: M|
                #[trigger] updates_lead(first, from, between) && updates_lead(
                    second.drop_last(),
                    between,
                    before_last,
                );
            lemma_updates_lead_on(second, between, before_last, to);
        }
        if exists|between: M|
            #[trigger] updates_lead(first, from, between) && updates_lead(second, between, to) {
            let between = choose|between: M|
                #[trigger] updates_lead(first, from, between) && updates_lead(second, between, to);
            let before_last = choose|before_last: M|
                updates_lead(second.drop_last(), between, before_last) && #[trigger] call_ensures(
                    second.last(),
                    (before_last,),
                    to,
                );
            lemma_updates_lead_in_a_row(first, second.drop_last(), from, before_last);
            assert(updates_lead(first, from, between) && updates_lead(
                second.drop_last(),
                between,
                before_last,
            ));
            assert(updates_lead(all.drop_last(), from, before_last));
            lemma_updates_lead_on(all, from, before_last, to);
        }
    }
}

/// Applies `updates` to `model` one after the other, first one first and each
/// once.
pub fn apply_updates<M, U: FnOnce(M) -> M>(model: M, updates: Vec<U>) -> (m: M)
    requires
        forall|i: int| 0 <= i < updates@.len() ==> takes_any_model(#[trigger] updates@[i]),
    ensures
        updates_lead(updates@, model, m),
{
    let ghost from = model;
    let ghost all = updates@;
    let mut model = model;
    for update in iter: updates
        invariant
            iter.seq() == all,
            forall|i: int| 0 <= i < all.len() ==> takes_any_model(#[trigger] all[i]),
            updates_lead(all.take(iter.index() as int), from, model),
    {
        proof {
            let i = iter.index() as int;
            assert(all.take(i + 1).drop_last() =~= all.take(i));
            assert(all.take(i + 1).last() == update);
            assert(takes_any_model(all[i]));
        }
        let ghost before = model;
        model = update(model);
        proof {
            let i = iter.index() as int;
            lemma_updates_lead_on(all.take(i + 1), from, before, model);
        }
    }
    proof {
        assert(all.take(all.len() as int) =~= all);
    }
    model
}

/// The channel by which updates for the model reach the side of the stream
/// that the hardware calls: a queue that hands them on in the order in which
/// they were sent.
pub struct UpdateChannel<U> {
    queue: Vec<U>,
}

impl<U> UpdateChannel<U> {
    /// The updates that have been sent and not handed on, first one first.
    pub closed spec fn view(&self) -> Seq<U> {
        self.queue@
    }

    /// A channel with nothing in it.
    pub fn new() -> (channel: Self)
        ensures
            channel@ == Seq::<U>::empty(),
    {
        UpdateChannel { queue: Vec::new() }
    }

    /// Puts `update` behind all that have been sent before.
    pub fn send(&mut self, update: U)
        ensures
            final(self)@ == old(self)@.push(update),
    {
        self.queue.push(update);
    }

    /// The number of updates that are waiting.
    pub fn len(&self) -> (n: usize)
        ensures
            n == self@.len(),
    {
        self.queue.len()
    }

    /// Hands on all the updates that are waiting, first one first, and leaves
    /// the channel empty.
    pub fn drain(&mut self) -> (updates: Vec<U>)
        ensures
            updates@ == old(self)@,
            final(self)@ == Seq::<U>::empty(),
    {
        let mut updates: Vec<U> = Vec::new();
        std::mem::swap(&mut updates, &mut self.queue);
        updates
    }
}

/// A stream as its handle and the hardware's side share it: the model, the
/// updates on their way to it, and whether the stream is running.
pub struct Stream<M, U> {
    /// The model. It is taken out while updates are applied or a buffer is
    /// rendered, and put back when that is done.
    model: Option<M>,
    stream_id: StreamId,
    state: State,
    updates: UpdateChannel<U>,
    format: Format,
}

impl<M, U: FnOnce(M) -> M> Stream<M, U> {
    /// The model as it is between two calls.
    pub closed spec fn spec_model(&self) -> M {
        self.model->0
    }

    /// Where the stream stands in its life.
    pub closed spec fn spec_state(&self) -> State {
        self.state
    }

    /// The name under which the host knows the stream.
    pub closed spec fn spec_id(&self) -> StreamId {
        self.stream_id
    }

    /// The format that was negotiated for the stream.
    pub closed spec fn spec_format(&self) -> Format {
        self.format
    }

    /// The updates that have been sent and not applied, first one first.
    pub closed spec fn pending_updates(&self) -> Seq<U> {
        self.updates@
    }

    /// The model is in its place, and every update that waits can be applied
    /// to whatever the model is by then.
    pub closed spec fn wf(&self) -> bool {
        &&& self.model is Some
        &&& self.updates_wf()
    }

    /// Every update that waits can be applied to whatever the model is by
    /// then.
    pub closed spec fn updates_wf(&self) -> bool {
        forall|i: int| 0 <= i < self.updates@.len() ==> takes_any_model(#[trigger] self.updates@[i])
    }

    /// A running stream with this model, with no update on its way.
    pub fn new(model: M, stream_id: StreamId, format: Format) -> (stream: Self)
        ensures
            stream.wf(),
            stream.spec_model() == model,
            stream.spec_state() == State::Running,
            stream.spec_id() == stream_id,
            stream.spec_format() == format,
            stream.pending_updates() == Seq::<U>::empty(),
    {
        Stream { model: Some(model), stream_id, state: State::Running, updates: UpdateChannel::new(), format }
    }

    /// Pauses the stream: from the next buffer on, the hardware is given
    /// silence and what it delivers is let go. Pausing a paused stream changes
    /// nothing, and a closed stream stays closed. The model and the updates on
    /// their way are not touched.
    pub fn pause(&mut self)
        ensures
            final(self).spec_state() == old(self).spec_state().after_pause(),
            final(self).spec_model() == old(self).spec_model(),
            final(self).pending_updates() == old(self).pending_updates(),
            final(self).spec_id() == old(self).spec_id(),
            final(self).spec_format() == old(self).spec_format(),
            old(self).wf() ==> final(self).wf(),
    {
        self.state = self.state.paused();
    }

    /// Resumes the stream: from the next buffer on, buffers are rendered or
    /// captured again. Resuming a running stream changes nothing, and a closed
    /// stream stays closed. The model and the updates on their way are not
    /// touched.
    pub fn resume(&mut self)
        ensures
            final(self).spec_state() == old(self).spec_state().after_resume(),
            final(self).spec_model() == old(self).spec_model(),
            final(self).pending_updates() == old(self).pending_updates(),
            final(self).spec_id() == old(self).spec_id(),
            final(self).spec_format() == old(self).spec_format(),
            old(self).wf() ==> final(self).wf(),
    {
        self.state = self.state.resumed();
    }

    /// Closes the stream for good. Closing a closed stream changes nothing.
    pub fn close(&mut self)
        ensures
            final(self).spec_state() == State::Closed,
            final(self).spec_model() == old(self).spec_model(),
            final(self).pending_updates() == old(self).pending_updates(),
            final(self).spec_id() == old(self).spec_id(),
            final(self).spec_format() == old(self).spec_format(),
            old(self).wf() ==> final(self).wf(),
    {
        self.state = State::Closed;
    }

    /// Whether the stream is paused.
    pub fn is_paused(&self) -> (b: bool)
        ensures
            b == (self.spec_state() == State::Paused),
    {
        self.state == State::Paused
    }

    /// Whether the stream is closed.
    pub fn is_closed(&self) -> (b: bool)
        ensures
            b == (self.spec_state() == State::Closed),
    {
        self.state == State::Closed
    }

    /// Where the stream stands in its life.
    pub fn state(&self) -> (state: State)
        ensures
            state == self.spec_state(),
    {
        self.state
    }

    /// The name under which the host knows the stream.
    pub fn id(&self) -> (id: StreamId)
        ensures
            id == self.spec_id(),
    {
        self.stream_id
    }

    /// The format that was negotiated for the stream.
    pub fn format(&self) -> (format: Format)
        ensures
            format == self.spec_format(),
    {
        self.format
    }

    /// The model as it is between two calls.
    pub fn model(&self) -> (model: &M)
        requires
            self.wf(),
        ensures
            *model == self.spec_model(),
    {
        self.model.as_ref().unwrap()
    }

    /// The number of updates that have been sent and not applied.
    pub fn num_pending_updates(&self) -> (n: usize)
        ensures
            n == self.pending_updates().len(),
    {
        self.updates.len()
    }

    /// Sends an update for the model. It is applied, after all that were sent
    /// before it, when the hardware next asks for or delivers a buffer. On a
    /// closed stream the update is taken and never applied.
    pub fn send_update(&mut self, update: U)
        requires
            old(self).wf(),
            takes_any_model(update),
        ensures
            final(self).wf(),
            final(self).pending_updates() == old(self).pending_updates().push(update),
            final(self).spec_model() == old(self).spec_model(),
            final(self).spec_state() == old(self).spec_state(),
            final(self).spec_id() == old(self).spec_id(),
            final(self).spec_format() == old(self).spec_format(),
    {
        self.updates.send(update);
    }

    /// Sends the updates of `updates`, first one first.
    pub fn send_updates(&mut self, updates: Vec<U>)
        requires
            old(self).wf(),
            forall|i: int| 0 <= i < updates@.len() ==> takes_any_model(#[trigger] updates@[i]),
        ensures
            final(self).wf(),
            final(self).pending_updates() == old(self).pending_updates() + updates@,
            final(self).spec_model() == old(self).spec_model(),
            final(self).spec_state() == old(self).spec_state(),
            final(self).spec_id() == old(self).spec_id(),
            final(self).spec_format() == old(self).spec_format(),
    {
        let ghost all = updates@;
        for update in iter: updates
            invariant
                iter.seq() == all,
                forall|i: int| 0 <= i < all.len() ==> takes_any_model(#[trigger] all[i]),
                self.wf(),
                self.pending_updates() == old(self).pending_updates() + all.take(
                    iter.index() as int,
                ),
                self.spec_model() == old(self).spec_model(),
                self.spec_state() == old(self).spec_state(),
                self.spec_id() == old(self).spec_id(),
                self.spec_format() == old(self).spec_format(),
        {
            proof {
                let i = iter.index() as int;
                assert(takes_any_model(all[i]));
                assert((old(self).pending_updates() + all.take(i)).push(update) =~= old(
                    self,
                ).pending_updates() + all.take(i + 1));
            }
            self.send_update(update);
        }
        proof {
            assert(all.take(all.len() as int) =~= all);
        }
    }

    /// Applies the updates that have been sent, in the order in which they
    /// were sent and each once, and leaves none waiting. On a closed stream
    /// nothing is applied and the updates stay where they are.
    pub fn process_pending_updates(&mut self)
        requires
            old(self).wf(),
        ensures
            final(self).wf(),
            final(self).spec_state() == old(self).spec_state(),
            final(self).spec_id() == old(self).spec_id(),
            final(self).spec_format() == old(self).spec_format(),
            old(self).spec_state() == State::Closed ==> final(self).spec_model() == old(
                self,
            ).spec_model() && final(self).pending_updates() == old(self).pending_updates(),
            old(self).spec_state() != State::Closed ==> updates_lead(
                old(self).pending_updates(),
                old(self).spec_model(),
                final(self).spec_model(),
            ) && final(self).pending_updates() == Seq::<U>::empty(),
    {
        if self.state == State::Closed {
            return ;
        }
        let updates = self.updates.drain();
        let model = self.model.take().unwrap();
        let model = apply_updates(model, updates);
        self.model = Some(model);
    }

    /// Takes the model out of its place, to render or capture with it.
    pub(crate) fn take_model(&mut self) -> (model: M)
        requires
            old(self).wf(),
        ensures
            model == old(self).spec_model(),
            final(self).updates_wf(),
            final(self).spec_state() == old(self).spec_state(),
            final(self).spec_id() == old(self).spec_id(),
            final(self).spec_format() == old(self).spec_format(),
            final(self).pending_updates() == old(self).pending_updates(),
    {
        self.model.take().unwrap()
    }

    /// Puts the model back in its place.
    pub(crate) fn put_model(&mut self, model: M)
        requires
            old(self).updates_wf(),
        ensures
            final(self).wf(),
            final(self).spec_model() == model,
            final(self).spec_state() == old(self).spec_state(),
            final(self).spec_id() == old(self).spec_id(),
            final(self).spec_format() == old(self).spec_format(),
            final(self).pending_updates() == old(self).pending_updates(),
    {
        self.model = Some(model);
    }
}

} // verus!
