//! The receiver: it hands the capture function buffers of the length that the
//! stream was built with, whatever length the hardware delivers.
//!
//! It is the requester turned round. Captured samples gather in a buffer of
//! the stream's own length; each time the buffer is full, the capture function
//! gets it, and gathering starts again. What does not fill a buffer stays
//! pending for the next call.

use crate::audio::buffer::Buffer;
use crate::audio::requester::lemma_div_mod_shift;
use crate::audio::stream::input::CaptureFn;
use vstd::prelude::*;

verus! {

/// The form of the buffers that the capture function is given: their length
/// in samples, and the channel count and sample rate of the stream.
pub struct Form {
    pub len: nat,
    pub channels: usize,
    pub sample_rate: u32,
}

/// The buffer with this index among those cut from `all`, each `len` samples
/// long, from the start.
pub open spec fn captured_block<S>(all: Seq<S>, len: nat, index: nat) -> Seq<S> {
    all.subrange((index * len) as int, ((index + 1) * len) as int)
}

/// The model after the capture function has been given the first `count`
/// buffers cut from `all`, one after the other.
pub open spec fn model_after_captures<M, S: Copy, F: CaptureFn<M, S>>(
    capture: F,
    model: M,
    all: Seq<S>,
    form: Form,
    count: nat,
) -> M
    decreases count,
{
    if count == 0 {
        model
    } else {
        capture.model_after(
            model_after_captures(capture, model, all, form, (count - 1) as nat),
            captured_block(all, form.len, (count - 1) as nat),
            form.channels,
            form.sample_rate,
        )
    }
}

/// What has happened once a run of captured samples has been taken in.
pub struct Received<M, S> {
    /// The model after the buffers that the capture function was given.
    pub model: M,
    /// The samples that have not filled a buffer yet.
    pub pending: Seq<S>,
    /// The samples of all buffers that the capture function was given, in a
    /// row.
    pub delivered: Seq<S>,
    /// The number of buffers that the capture function was given.
    pub captures: nat,
}

/// What taking in `input` gives and leaves behind, from a model and the
/// samples pending at the start: the pending samples and the new ones in a
/// row are cut into buffers, the capture function gets every whole one, and
/// the rest stays pending.
pub open spec fn received<M, S: Copy, F: CaptureFn<M, S>>(
    capture: F,
    model: M,
    pending: Seq<S>,
    input: Seq<S>,
    form: Form,
) -> Received<M, S> {
    let all = pending + input;
    let captures = (all.len() as int / form.len as int) as nat;
    Received {
        model: model_after_captures(capture, model, all, form, captures),
        pending: all.skip((captures * form.len) as int),
        delivered: all.take((captures * form.len) as int),
        captures,
    }
}

/// The buffers given to the capture function and the samples left pending
/// are, in a row, the samples pending at the start and the new ones: none is
/// dropped and none comes twice. Every buffer given has the stream's own
/// length.
pub proof fn lemma_nothing_dropped_or_repeated<M, S: Copy, F: CaptureFn<M, S>>(
    capture: F,
    model: M,
    pending: Seq<S>,
    input: Seq<S>,
    form: Form,
)
    requires
        form.len > 0,
    ensures
        ({
            let result = received(capture, model, pending, input, form);
            &&& result.delivered + result.pending == pending + input
            &&& result.delivered.len() == result.captures * form.len
            &&& result.pending.len() < form.len
            &&& forall|k: nat|
                k < result.captures ==> #[trigger] captured_block(pending + input, form.len, k)
                    == result.delivered.subrange((k * form.len) as int, ((k + 1) * form.len) as int)
            &&& forall|k: nat|
                k < result.captures ==> (#[trigger] captured_block(
                    pending + input,
                    form.len,
                    k,
                )).len() == form.len
        }),
{
    let all = pending + input;
    let len = form.len as int;
    let result = received(capture, model, pending, input, form);
    lemma_captures_fit(all.len() as int, len);
    assert(result.delivered + result.pending =~= all);
    assert forall|k: nat| k < result.captures implies #[trigger] captured_block(all, form.len, k)
        == result.delivered.subrange((k * form.len) as int, ((k + 1) * form.len) as int) && captured_block(
        all,
        form.len,
        k,
    ).len() == form.len by {
        lemma_block_fits(k as int, result.captures as int, len);
        assert(captured_block(all, form.len, k) =~= result.delivered.subrange(
            (k * form.len) as int,
            ((k + 1) * form.len) as int,
        ));
    }
}

/// The whole buffers cut from `total` samples fit in them, and less than one
/// buffer is left over.
proof fn lemma_captures_fit(total: int, len: int)
    requires
        0 <= total,
        0 < len,
    ensures
        0 <= total / len,
        (total / len) * len <= total < (total / len) * len + len,
        total - (total / len) * len == total % len,
{
    vstd::arithmetic::div_mod::lemma_fundamental_div_mod(total, len);
    vstd::arithmetic::div_mod::lemma_mod_bound(total, len);
    vstd::arithmetic::div_mod::lemma_div_pos_is_pos(total, len);
    assert((total / len) * len == len * (total / len)) by (nonlinear_arith);
}

/// Buffer `k` of `count` lies inside the first `count` buffers.
proof fn lemma_block_fits(k: int, count: int, len: int)
    requires
        0 <= k < count,
        0 < len,
    ensures
        0 <= k * len,
        (k + 1) * len == k * len + len,
        (k + 1) * len <= count * len,
{
    assert(0 <= k * len) by (nonlinear_arith)
        requires
            0 <= k,
            0 < len,
    ;
    assert((k + 1) * len == k * len + len) by (nonlinear_arith);
    assert((k + 1) * len <= count * len) by (nonlinear_arith)
        requires
            k + 1 <= count,
            0 < len,
    ;
}

/// The model after `count` buffers depends on the samples of those buffers
/// alone, not on what follows them.
pub proof fn lemma_model_after_captures_of_prefix<M, S: Copy, F: CaptureFn<M, S>>(
    capture: F,
    model: M,
    all: Seq<S>,
    form: Form,
    count: nat,
    end: int,
)
    requires
        form.len > 0,
        count * form.len <= end <= all.len(),
    ensures
        model_after_captures(capture, model, all.take(end), form, count) == model_after_captures(
            capture,
            model,
            all,
            form,
            count,
        ),
    decreases count,
{
    if count > 0 {
        lemma_block_fits(count - 1, count as int, form.len as int);
        lemma_model_after_captures_of_prefix(capture, model, all, form, (count - 1) as nat, end);
        assert(captured_block(all.take(end), form.len, (count - 1) as nat) =~= captured_block(
            all,
            form.len,
            (count - 1) as nat,
        ));
    }
}

/// Giving the capture function `a` buffers and then `b` more, cut from what
/// follows the first `a`, is giving it `a + b` buffers.
pub proof fn lemma_model_after_captures_add<M, S: Copy, F: CaptureFn<M, S>>(
    capture: F,
    model: M,
    all: Seq<S>,
    form: Form,
    a: nat,
    b: nat,
)
    requires
        form.len > 0,
        (a + b) * form.len <= all.len(),
    ensures
        model_after_captures(
            capture,
            model_after_captures(capture, model, all, form, a),
            all.skip((a * form.len) as int),
            form,
            b,
        ) == model_after_captures(capture, model, all, form, a + b),
    decreases b,
{
    let len = form.len as int;
    assert((a + b) * len == a * len + b * len) by (nonlinear_arith);
    assert(0 <= a * len) by (nonlinear_arith)
        requires
            0 <= a,
            0 < len,
    ;
    if b > 0 {
        lemma_block_fits(b - 1, b as int, len);
        assert((a + b - 1) * len == a * len + (b - 1) * len) by (nonlinear_arith);
        lemma_model_after_captures_add(capture, model, all, form, a, (b - 1) as nat);
        assert((a + b - 1) as nat == a + (b - 1) as nat);
        assert(captured_block(all.skip(a * len), form.len, (b - 1) as nat) =~= captured_block(
            all,
            form.len,
            (a + b - 1) as nat,
        ));
    }
}

/// Taking in one run of samples and then another is taking in the two in a
/// row at once: the capture function is given the same buffers, and the model
/// and the pending samples are the same at the end.
pub proof fn lemma_receive_composes<M, S: Copy, F: CaptureFn<M, S>>(
    capture: F,
    model: M,
    pending: Seq<S>,
    first_input: Seq<S>,
    second_input: Seq<S>,
    form: Form,
)
    requires
        form.len > 0,
    ensures
        ({
            let first = received(capture, model, pending, first_input, form);
            let second = received(capture, first.model, first.pending, second_input, form);
            let whole = received(capture, model, pending, first_input + second_input, form);
            &&& first.pending.len() < form.len
            &&& first.delivered + second.delivered == whole.delivered
            &&& second.model == whole.model
            &&& second.pending == whole.pending
            &&& first.captures + second.captures == whole.captures
        }),
{
    let len = form.len as int;
    let first = received(capture, model, pending, first_input, form);
    let second = received(capture, first.model, first.pending, second_input, form);
    let whole = received(capture, model, pending, first_input + second_input, form);
    let all1 = pending + first_input;
    let all2 = first.pending + second_input;
    let all = pending + (first_input + second_input);
    let c1 = first.captures;
    let c2 = second.captures;
    lemma_captures_fit(all1.len() as int, len);
    lemma_captures_fit(all2.len() as int, len);
    assert(all =~= all1 + second_input);
    assert(all1 =~= all.take(all1.len() as int));
    assert(all2 =~= all.skip(c1 * len));
    assert(all.len() == c1 * len + all2.len());
    lemma_div_mod_shift(all2.len() as int, c1 as int, len);
    assert(whole.captures == c1 + c2);
    assert((c1 + c2) * len == c1 * len + c2 * len) by (nonlinear_arith);
    lemma_model_after_captures_of_prefix(capture, model, all, form, c1, all1.len() as int);
    lemma_model_after_captures_add(capture, model, all, form, c1, c2);
    assert(second.pending =~= whole.pending);
    assert(first.delivered + second.delivered =~= whole.delivered);
}

/// The runs one after the other, in a row.
pub open spec fn joined<S>(chunks: Seq<Seq<S>>) -> Seq<S>
    decreases chunks.len(),
{
    if chunks.len() == 0 {
        Seq::empty()
    } else {
        chunks[0] + joined(chunks.skip(1))
    }
}

/// What taking in the given runs of samples, one after the other, gives and
/// leaves behind: all the buffers that the capture function was given, in a
/// row, and their number.
pub open spec fn received_in_chunks<M, S: Copy, F: CaptureFn<M, S>>(
    capture: F,
    model: M,
    pending: Seq<S>,
    chunks: Seq<Seq<S>>,
    form: Form,
) -> Received<M, S>
    decreases chunks.len(),
{
    if chunks.len() == 0 {
        Received { model, pending, delivered: Seq::empty(), captures: 0 }
    } else {
        let first = received(capture, model, pending, chunks[0], form);
        let rest = received_in_chunks(capture, first.model, first.pending, chunks.skip(1), form);
        Received {
            model: rest.model,
            pending: rest.pending,
            delivered: first.delivered + rest.delivered,
            captures: first.captures + rest.captures,
        }
    }
}

/// The lengths in which the hardware delivers samples do not show: however
/// the captured samples are cut into runs, the capture function is given the
/// buffers that it would be given if they came in one run, and the model and
/// the pending samples are the same at the end. With what is then pending,
/// the buffers given are the captured samples in a row, none dropped and none
/// twice.
pub proof fn lemma_chunk_lengths_do_not_show<M, S: Copy, F: CaptureFn<M, S>>(
    capture: F,
    model: M,
    pending: Seq<S>,
    chunks: Seq<Seq<S>>,
    form: Form,
)
    requires
        form.len > 0,
        pending.len() < form.len,
    ensures
        received_in_chunks(capture, model, pending, chunks, form) == received(
            capture,
            model,
            pending,
            joined(chunks),
            form,
        ),
        received_in_chunks(capture, model, pending, chunks, form).delivered + received_in_chunks(
            capture,
            model,
            pending,
            chunks,
            form,
        ).pending == pending + joined(chunks),
    decreases chunks.len(),
{
    let len = form.len as int;
    lemma_nothing_dropped_or_repeated(capture, model, pending, joined(chunks), form);
    if chunks.len() == 0 {
        let all = pending + joined(chunks);
        assert(all =~= pending);
        vstd::arithmetic::div_mod::lemma_fundamental_div_mod_converse(
            all.len() as int,
            len,
            0,
            all.len() as int,
        );
        assert(all.skip(0) =~= pending);
        assert(all.take(0) =~= Seq::<S>::empty());
    } else {
        let first = received(capture, model, pending, chunks[0], form);
        lemma_receive_composes(capture, model, pending, chunks[0], joined(chunks.skip(1)), form);
        lemma_chunk_lengths_do_not_show(capture, first.model, first.pending, chunks.skip(1), form);
    }
}

/// Gathers captured samples, which come in buffers of a length that the
/// hardware chooses, into buffers of the stream's own length for the capture
/// function.
pub struct Receiver<S> {
    /// The buffer that is being filled.
    buffer: Buffer<S>,
    num_frames: usize,
    /// How many samples of `buffer` have been gathered.
    gathered: usize,
}

impl<S: Copy> Receiver<S> {
    /// The samples gathered that have not filled a buffer yet.
    pub closed spec fn pending(&self) -> Seq<S> {
        self.buffer@.take(self.gathered as int)
    }

    /// The number of frames in each buffer given to the capture function.
    pub closed spec fn spec_num_frames(&self) -> usize {
        self.num_frames
    }

    /// The number of channels in each frame.
    pub closed spec fn spec_num_channels(&self) -> usize {
        self.buffer.spec_channels()
    }

    /// The number of samples in each buffer given to the capture function.
    pub open spec fn spec_len(&self) -> nat {
        (self.spec_num_frames() * self.spec_num_channels()) as nat
    }

    /// The form of the buffers given to the capture function on a stream of
    /// this sample rate.
    pub open spec fn form(&self, sample_rate: u32) -> Form {
        Form { len: self.spec_len(), channels: self.spec_num_channels(), sample_rate }
    }

    /// The buffer has the stream's own length, which is not zero, and is never
    /// left full.
    pub closed spec fn wf(&self) -> bool {
        &&& self.buffer.wf()
        &&& self.num_frames > 0
        &&& self.buffer@.len() == self.num_frames * self.buffer.spec_channels()
        &&& self.buffer@.len() <= usize::MAX
        &&& self.gathered < self.buffer@.len()
    }

    /// Less is pending than a buffer holds.
    pub proof fn lemma_pending_len(&self)
        requires
            self.wf(),
        ensures
            self.pending().len() < self.spec_len(),
            self.spec_num_frames() > 0,
            self.spec_num_channels() > 0,
            self.spec_len() <= usize::MAX,
    {
    }

    /// A receiver for buffers of `num_frames` frames of `num_channels`
    /// channels, with nothing pending. Until samples are gathered the buffer
    /// holds `equilibrium`.
    pub fn new(num_frames: usize, num_channels: usize, equilibrium: S) -> (receiver: Self)
        requires
            num_frames > 0,
            num_channels > 0,
            num_frames * num_channels <= usize::MAX,
        ensures
            receiver.wf(),
            receiver.spec_num_frames() == num_frames,
            receiver.spec_num_channels() == num_channels,
            receiver.pending() == Seq::<S>::empty(),
    {
        let buffer = Buffer::filled(num_frames, num_channels, 0, equilibrium);
        assert(num_frames * num_channels > 0) by (nonlinear_arith)
            requires
                num_frames > 0,
                num_channels > 0,
        ;
        let receiver = Receiver { buffer, num_frames, gathered: 0 };
        assert(receiver.pending() =~= Seq::<S>::empty());
        receiver
    }

    /// Takes in the captured samples of `input`, gives the capture function
    /// every buffer that they fill, and gives back the model as the capture
    /// function left it.
    pub fn read_buffer<M, F: CaptureFn<M, S>>(
        &mut self,
        model: M,
        capture: &F,
        input: &[S],
        sample_rate: u32,
    ) -> (m: M)
        requires
            old(self).wf(),
        ensures
            final(self).wf(),
            final(self).spec_num_frames() == old(self).spec_num_frames(),
            final(self).spec_num_channels() == old(self).spec_num_channels(),
            final(self).pending() == received(
                *capture,
                model,
                old(self).pending(),
                input@,
                old(self).form(sample_rate),
            ).pending,
            m == received(
                *capture,
                model,
                old(self).pending(),
                input@,
                old(self).form(sample_rate),
            ).model,
    {
        let ghost model0 = model;
        let ghost pending0 = self.pending();
        let ghost all = self.pending() + input@;
        let ghost form = self.form(sample_rate);
        let mut model = model;
        let len = self.buffer.len();
        let available = input.len();
        self.buffer.set_sample_rate(sample_rate);
        let mut read: usize = 0;
        let ghost mut captures: nat = 0;
        while read < available
            invariant
                self.buffer.wf(),
                self.buffer@.len() == len,
                len == form.len,
                len == self.num_frames * self.buffer.spec_channels(),
                self.num_frames == old(self).num_frames,
                self.num_frames > 0,
                self.buffer.spec_channels() == old(self).buffer.spec_channels(),
                self.buffer.spec_channels() == form.channels,
                self.buffer.spec_sample_rate() == sample_rate,
                form.sample_rate == sample_rate,
                self.gathered < len,
                available == input@.len(),
                read <= available,
                all == pending0 + input@,
                pending0.len() + read == captures * len + self.gathered,
                forall|t: int|
                    0 <= t < self.gathered ==> self.buffer@[t] == all[captures * len + t],
                model == model_after_captures(*capture, model0, all, form, captures),
            decreases available - read,
        {
            let at = self.gathered;
            let count = if available - read < len - at {
                available - read
            } else {
                len - at
            };
            let mut taken: usize = 0;
            while taken < count
                invariant
                    self.buffer.wf(),
                    self.buffer@.len() == len,
                    self.buffer.spec_channels() == old(self).buffer.spec_channels(),
                    self.buffer.spec_sample_rate() == sample_rate,
                    self.num_frames == old(self).num_frames,
                    at + count <= len,
                    read + count <= available,
                    available == input@.len(),
                    taken <= count,
                    all == pending0 + input@,
                    pending0.len() + read == captures * len + at,
                    forall|t: int|
                        0 <= t < at + taken ==> self.buffer@[t] == all[captures * len + t],
                decreases count - taken,
            {
                self.buffer.set(at + taken, input[read + taken]);
                taken += 1;
            }
            self.gathered = at + count;
            read = read + count;
            if self.gathered == len {
                proof {
                    assert((captures + 1) * len == captures * len + len) by (nonlinear_arith);
                    assert(self.buffer@ =~= captured_block(all, form.len, captures));
                }
                capture.capture(&mut model, &self.buffer);
                self.gathered = 0;
                proof {
                    captures = captures + 1;
                }
            }
        }
        proof {
            vstd::arithmetic::div_mod::lemma_fundamental_div_mod_converse(
                all.len() as int,
                len as int,
                captures as int,
                self.gathered as int,
            );
            assert(self.pending() =~= all.skip((captures * len) as int));
        }
        model
    }

    /// The number of frames in each buffer given to the capture function.
    pub fn num_frames(&self) -> (n: usize)
        ensures
            n == self.spec_num_frames(),
    {
        self.num_frames
    }

    /// The number of channels in each frame.
    pub fn num_channels(&self) -> (n: usize)
        ensures
            n == self.spec_num_channels(),
    {
        self.buffer.channels()
    }

    /// The number of samples that are pending.
    pub fn num_pending(&self) -> (n: usize)
        requires
            self.wf(),
        ensures
            n == self.pending().len(),
    {
        self.gathered
    }
}

} // verus!
