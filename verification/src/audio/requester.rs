//! The requester: it asks the render function for buffers of the length that
//! the stream was built with, whatever length the hardware asks for.
//!
//! The hardware asks for a number of samples that it chooses and may change
//! from call to call. The render function always gets a buffer of the stream's
//! own length. The requester stands between the two: it renders a buffer when
//! it has nothing left to hand out, hands out as much of it as the hardware
//! takes, and keeps the rest for the next call.

use crate::audio::buffer::Buffer;
use crate::audio::stream::output::RenderFn;
use vstd::prelude::*;

verus! {

/// What the render function is given at every call: a silent buffer, and the
/// channel count and sample rate of the stream.
pub struct Shape<S> {
    pub silence: Seq<S>,
    pub channels: usize,
    pub sample_rate: u32,
}

/// The model after `count` buffers have been rendered from `model`, one after
/// the other.
pub open spec fn model_after_renders<M, S: Copy, F: RenderFn<M, S>>(
    render: F,
    model: M,
    shape: Shape<S>,
    count: nat,
) -> M
    decreases count,
{
    if count == 0 {
        model
    } else {
        render.model_after(
            model_after_renders(render, model, shape, (count - 1) as nat),
            shape.silence,
            shape.channels,
            shape.sample_rate,
        )
    }
}

/// The buffer that is rendered after `index` others have been rendered from
/// `model`: as many samples as the silent buffer that the render function is
/// given.
pub open spec fn rendered_block<M, S: Copy, F: RenderFn<M, S>>(
    render: F,
    model: M,
    shape: Shape<S>,
    index: nat,
) -> Seq<S> {
    let samples = render.samples_after(
        model_after_renders(render, model, shape, index),
        shape.silence,
        shape.channels,
        shape.sample_rate,
    );
    Seq::new(shape.silence.len(), |i: int| samples[i])
}

/// Sample `i` of all that is still to be played: first what is pending of the
/// buffer rendered last, then the buffers rendered from `model`, one after the
/// other.
pub open spec fn stream_sample<M, S: Copy, F: RenderFn<M, S>>(
    render: F,
    model: M,
    pending: Seq<S>,
    shape: Shape<S>,
    i: int,
) -> S {
    if i < pending.len() {
        pending[i]
    } else {
        let beyond = i - pending.len();
        let len = shape.silence.len() as int;
        rendered_block(render, model, shape, (beyond / len) as nat)[beyond % len]
    }
}

/// The number of buffers that must be rendered to hand out `wanted` samples
/// when `pending` samples are there already and a buffer holds `len`: none
/// when the pending ones are enough, else as many as cover the rest.
pub open spec fn renders_needed(wanted: int, pending: int, len: int) -> nat {
    if wanted <= pending {
        0
    } else {
        ((wanted - pending + len - 1) / len) as nat
    }
}

/// What has happened once `wanted` samples have been handed out.
pub struct Filled<M, S> {
    /// The model after the buffers that had to be rendered.
    pub model: M,
    /// What is left of the buffer rendered last.
    pub pending: Seq<S>,
    /// The samples handed out.
    pub output: Seq<S>,
    /// The number of buffers rendered.
    pub renders: nat,
}

/// What handing out `wanted` samples gives and leaves behind, from a model and
/// the samples pending at the start.
pub open spec fn filled<M, S: Copy, F: RenderFn<M, S>>(
    render: F,
    model: M,
    pending: Seq<S>,
    shape: Shape<S>,
    wanted: nat,
) -> Filled<M, S> {
    let len = shape.silence.len() as int;
    let renders = renders_needed(wanted as int, pending.len() as int, len);
    Filled {
        model: model_after_renders(render, model, shape, renders),
        pending: if wanted <= pending.len() {
            pending.skip(wanted as int)
        } else {
            rendered_block(render, model, shape, (renders - 1) as nat).skip(
                wanted - pending.len() - (renders - 1) * len,
            )
        },
        output: Seq::new(wanted, |i: int| stream_sample(render, model, pending, shape, i)),
        renders,
    }
}

/// Rendering `a` buffers and then `b` more leaves the model as rendering
/// `a + b` buffers does.
pub proof fn lemma_model_after_renders_add<M, S: Copy, F: RenderFn<M, S>>(
    render: F,
    model: M,
    shape: Shape<S>,
    a: nat,
    b: nat,
)
    ensures
        model_after_renders(render, model_after_renders(render, model, shape, a), shape, b)
            == model_after_renders(render, model, shape, a + b),
    decreases b,
{
    if b > 0 {
        lemma_model_after_renders_add(render, model, shape, a, (b - 1) as nat);
        assert((a + b - 1) as nat == a + (b - 1) as nat);
    }
}

/// Whole buffers in front of a position move its buffer on by their number
/// and leave its place in the buffer as it is.
pub proof fn lemma_div_mod_shift(x: int, k: int, len: int)
    requires
        0 <= x,
        0 <= k,
        0 < len,
    ensures
        (k * len + x) / len == k + x / len,
        (k * len + x) % len == x % len,
        0 <= x / len,
{
    vstd::arithmetic::div_mod::lemma_fundamental_div_mod(x, len);
    vstd::arithmetic::div_mod::lemma_mod_bound(x, len);
    vstd::arithmetic::div_mod::lemma_div_pos_is_pos(x, len);
    assert(k * len + x == (k + x / len) * len + x % len) by (nonlinear_arith)
        requires
            x == len * (x / len) + x % len,
    ;
    vstd::arithmetic::div_mod::lemma_fundamental_div_mod_converse(
        k * len + x,
        len,
        k + x / len,
        x % len,
    );
}

/// Where the pending samples are not enough, at least one buffer is rendered,
/// and between one sample and all samples of the last one are handed out.
proof fn lemma_renders_needed(wanted: int, pending: int, len: int)
    requires
        0 <= pending < wanted,
        0 < len,
    ensures
        renders_needed(wanted, pending, len) >= 1,
        1 <= wanted - pending - (renders_needed(wanted, pending, len) - 1) * len <= len,
{
    let x = wanted - pending + len - 1;
    vstd::arithmetic::div_mod::lemma_fundamental_div_mod(x, len);
    vstd::arithmetic::div_mod::lemma_mod_bound(x, len);
    vstd::arithmetic::div_mod::lemma_div_pos_is_pos(x, len);
    let k = x / len;
    assert(k >= 1) by (nonlinear_arith)
        requires
            x == len * k + x % len,
            0 <= x % len < len,
            x >= len,
            0 < len,
    ;
    assert((k - 1) * len == len * k - len) by (nonlinear_arith);
}

/// What is left to play after `a` samples have been handed out is what was
/// to be played from sample `a` on.
pub proof fn lemma_stream_continues<M, S: Copy, F: RenderFn<M, S>>(
    render: F,
    model: M,
    pending: Seq<S>,
    shape: Shape<S>,
    a: nat,
    i: int,
)
    requires
        shape.silence.len() > 0,
        pending.len() <= shape.silence.len(),
        0 <= i,
    ensures
        stream_sample(
            render,
            filled(render, model, pending, shape, a).model,
            filled(render, model, pending, shape, a).pending,
            shape,
            i,
        ) == stream_sample(render, model, pending, shape, a + i),
        filled(render, model, pending, shape, a).pending.len() <= shape.silence.len(),
{
    let len = shape.silence.len() as int;
    let first = filled(render, model, pending, shape, a);
    if a > pending.len() {
        let k = first.renders;
        lemma_renders_needed(a as int, pending.len() as int, len);
        let r = a - pending.len() - (k - 1) * len;
        let beyond = a + i - pending.len();
        assert(beyond == (k - 1) * len + (r + i));
        if i < len - r {
            vstd::arithmetic::div_mod::lemma_fundamental_div_mod_converse(
                beyond,
                len,
                k - 1,
                r + i,
            );
        } else {
            let further = i - (len - r);
            assert(beyond == k * len + further) by (nonlinear_arith)
                requires
                    beyond == (k - 1) * len + (r + i),
                    further == i - (len - r),
            ;
            lemma_div_mod_shift(further, k as int, len);
            lemma_model_after_renders_add(render, model, shape, k, (further / len) as nat);
            assert((k + further / len) as nat == k + (further / len) as nat);
        }
    }
}

/// Handing out `a` samples and then `b` more is handing out `a + b` at once:
/// the same samples come out, the same number of buffers is rendered, and the
/// model and the pending samples are the same at the end.
pub proof fn lemma_fill_composes<M, S: Copy, F: RenderFn<M, S>>(
    render: F,
    model: M,
    pending: Seq<S>,
    shape: Shape<S>,
    a: nat,
    b: nat,
)
    requires
        shape.silence.len() > 0,
        pending.len() <= shape.silence.len(),
    ensures
        ({
            let first = filled(render, model, pending, shape, a);
            let second = filled(render, first.model, first.pending, shape, b);
            let whole = filled(render, model, pending, shape, a + b);
            &&& first.pending.len() <= shape.silence.len()
            &&& first.output + second.output == whole.output
            &&& second.model == whole.model
            &&& second.pending == whole.pending
            &&& first.renders + second.renders == whole.renders
        }),
{
    let len = shape.silence.len() as int;
    let p = pending.len() as int;
    let first = filled(render, model, pending, shape, a);
    let second = filled(render, first.model, first.pending, shape, b);
    let whole = filled(render, model, pending, shape, a + b);
    lemma_stream_continues(render, model, pending, shape, a, 0);
    assert forall|i: int| 0 <= i < b implies #[trigger] second.output[i] == whole.output[a + i] by {
        lemma_stream_continues(render, model, pending, shape, a, i);
    }
    assert(first.output + second.output =~= whole.output);
    if a <= p {
        if b <= p - a {
            assert(pending.skip(a as int).skip(b as int) =~= pending.skip((a + b) as int));
        }
    } else {
        let k1 = first.renders;
        lemma_renders_needed(a as int, p, len);
        let r = a - p - (k1 - 1) * len;
        let block = rendered_block(render, model, shape, (k1 - 1) as nat);
        assert(first.pending.len() == len - r);
        if b <= len - r {
            assert(a + b - p + len - 1 == k1 * len + (r + b - 1)) by (nonlinear_arith)
                requires
                    r == a - p - (k1 - 1) * len,
            ;
            if a + b > p {
                vstd::arithmetic::div_mod::lemma_fundamental_div_mod_converse(
                    a + b - p + len - 1,
                    len,
                    k1 as int,
                    r + b - 1,
                );
                assert(whole.renders == k1);
                assert(block.skip(r).skip(b as int) =~= block.skip(r + b));
            }
        } else {
            let x = b - (len - r) + len - 1;
            let k2 = second.renders;
            assert(k2 == x / len);
            assert(a + b - p + len - 1 == k1 * len + x) by (nonlinear_arith)
                requires
                    r == a - p - (k1 - 1) * len,
                    x == b - (len - r) + len - 1,
            ;
            lemma_div_mod_shift(x, k1 as int, len);
            assert(whole.renders == k1 + k2);
            lemma_renders_needed(b as int, len - r, len);
            lemma_model_after_renders_add(render, model, shape, k1, k2);
            lemma_model_after_renders_add(render, model, shape, k1, (k2 - 1) as nat);
            assert((k1 + k2 - 1) as nat == k1 + (k2 - 1) as nat);
            assert(a + b - p - (k1 + k2 - 1) * len == b - (len - r) - (k2 - 1) * len)
                by (nonlinear_arith)
                requires
                    r == a - p - (k1 - 1) * len,
            ;
        }
    }
}

/// The sum of the sizes.
pub open spec fn total(sizes: Seq<nat>) -> nat
    decreases sizes.len(),
{
    if sizes.len() == 0 {
        0
    } else {
        sizes[0] + total(sizes.skip(1))
    }
}

/// What handing out samples in runs of the given sizes, one after the other,
/// gives and leaves behind: the samples of all runs in a row, and the number
/// of buffers rendered for all of them.
pub open spec fn filled_in_chunks<M, S: Copy, F: RenderFn<M, S>>(
    render: F,
    model: M,
    pending: Seq<S>,
    shape: Shape<S>,
    sizes: Seq<nat>,
) -> Filled<M, S>
    decreases sizes.len(),
{
    if sizes.len() == 0 {
        Filled { model, pending, output: Seq::empty(), renders: 0 }
    } else {
        let first = filled(render, model, pending, shape, sizes[0]);
        let rest = filled_in_chunks(render, first.model, first.pending, shape, sizes.skip(1));
        Filled {
            model: rest.model,
            pending: rest.pending,
            output: first.output + rest.output,
            renders: first.renders + rest.renders,
        }
    }
}

/// The sizes in which the hardware asks for samples do not show: whatever
/// they are, the samples that come out in a row are those that one request
/// for their sum gives, the render function is called as often, and the
/// model and the pending samples are the same at the end.
///
/// With nothing pending at the start, the render function is called once for
/// every buffer that the sum begins: the sum divided by the length of a
/// buffer, rounded up.
pub proof fn lemma_chunk_sizes_do_not_show<M, S: Copy, F: RenderFn<M, S>>(
    render: F,
    model: M,
    pending: Seq<S>,
    shape: Shape<S>,
    sizes: Seq<nat>,
)
    requires
        shape.silence.len() > 0,
        pending.len() <= shape.silence.len(),
    ensures
        filled_in_chunks(render, model, pending, shape, sizes) == filled(
            render,
            model,
            pending,
            shape,
            total(sizes),
        ),
        pending.len() == 0 ==> filled_in_chunks(render, model, pending, shape, sizes).renders == (
        total(sizes) + shape.silence.len() - 1) / shape.silence.len() as int,
    decreases sizes.len(),
{
    let whole = filled(render, model, pending, shape, total(sizes));
    if sizes.len() == 0 {
        assert(pending.skip(0) =~= pending);
        assert(whole.output =~= Seq::<S>::empty());
    } else {
        let first = filled(render, model, pending, shape, sizes[0]);
        lemma_fill_composes(render, model, pending, shape, sizes[0], total(sizes.skip(1)));
        lemma_chunk_sizes_do_not_show(render, first.model, first.pending, shape, sizes.skip(1));
    }
    if pending.len() == 0 && total(sizes) == 0 {
        let len = shape.silence.len() as int;
        vstd::arithmetic::div_mod::lemma_fundamental_div_mod_converse(len - 1, len, 0, len - 1);
    }
}

/// Hands out samples in buffers of a length that the hardware chooses, from
/// buffers of the stream's own length that it has rendered when needed.
pub struct Requester<S> {
    /// The buffer rendered last.
    buffer: Buffer<S>,
    num_frames: usize,
    equilibrium: S,
    /// How many samples of `buffer` have been handed out.
    cursor: usize,
}

impl<S: Copy> Requester<S> {
    /// The samples of the buffer rendered last that have not been handed out.
    pub closed spec fn pending(&self) -> Seq<S> {
        self.buffer@.skip(self.cursor as int)
    }

    /// The number of frames in each buffer given to the render function.
    pub closed spec fn spec_num_frames(&self) -> usize {
        self.num_frames
    }

    /// The number of channels in each frame.
    pub closed spec fn spec_num_channels(&self) -> usize {
        self.buffer.spec_channels()
    }

    /// The sample that stands for silence.
    pub closed spec fn spec_equilibrium(&self) -> S {
        self.equilibrium
    }

    /// The number of samples in each buffer given to the render function.
    pub open spec fn spec_len(&self) -> nat {
        (self.spec_num_frames() * self.spec_num_channels()) as nat
    }

    /// What the render function is given at every call on a stream of this
    /// sample rate.
    pub open spec fn shape(&self, sample_rate: u32) -> Shape<S> {
        Shape {
            silence: Seq::new(self.spec_len(), |i: int| self.spec_equilibrium()),
            channels: self.spec_num_channels(),
            sample_rate,
        }
    }

    /// The buffer has the stream's own length, which is not zero, and no more
    /// has been handed out than it holds.
    pub closed spec fn wf(&self) -> bool {
        &&& self.buffer.wf()
        &&& self.num_frames > 0
        &&& self.buffer@.len() == self.num_frames * self.buffer.spec_channels()
        &&& self.buffer@.len() <= usize::MAX
        &&& self.cursor <= self.buffer@.len()
    }

    /// No more is pending than a buffer holds, and a buffer holds something.
    pub proof fn lemma_pending_len(&self)
        requires
            self.wf(),
        ensures
            self.pending().len() <= self.spec_len(),
            self.spec_len() > 0,
            self.spec_num_frames() > 0,
            self.spec_num_channels() > 0,
            self.spec_len() <= usize::MAX,
    {
        assert(self.num_frames * self.buffer.spec_channels() > 0) by (nonlinear_arith)
            requires
                self.num_frames > 0,
                self.buffer.spec_channels() > 0,
        ;
    }

    /// A requester for buffers of `num_frames` frames of `num_channels`
    /// channels, with nothing pending.
    pub fn new(num_frames: usize, num_channels: usize, equilibrium: S) -> (requester: Self)
        requires
            num_frames > 0,
            num_channels > 0,
            num_frames * num_channels <= usize::MAX,
        ensures
            requester.wf(),
            requester.spec_num_frames() == num_frames,
            requester.spec_num_channels() == num_channels,
            requester.spec_equilibrium() == equilibrium,
            requester.pending() == Seq::<S>::empty(),
    {
        let buffer = Buffer::filled(num_frames, num_channels, 0, equilibrium);
        let cursor = buffer.len();
        let requester = Requester { buffer, num_frames, equilibrium, cursor };
        assert(requester.pending() =~= Seq::<S>::empty());
        requester
    }

    /// Fills `output` with the samples that come next, rendering a buffer from
    /// the model whenever nothing is pending, and gives back the model as the
    /// render function left it.
    ///
    /// Nothing is rendered that is not needed: what is left of the last buffer
    /// stays pending for the next call.
    pub fn fill_buffer<M, F: RenderFn<M, S>>(
        &mut self,
        model: M,
        render: &F,
        output: &mut [S],
        sample_rate: u32,
    ) -> (m: M)
        requires
            old(self).wf(),
        ensures
            final(self).wf(),
            final(self).spec_num_frames() == old(self).spec_num_frames(),
            final(self).spec_num_channels() == old(self).spec_num_channels(),
            final(self).spec_equilibrium() == old(self).spec_equilibrium(),
            final(output)@ == filled(
                *render,
                model,
                old(self).pending(),
                old(self).shape(sample_rate),
                old(output)@.len(),
            ).output,
            final(self).pending() == filled(
                *render,
                model,
                old(self).pending(),
                old(self).shape(sample_rate),
                old(output)@.len(),
            ).pending,
            m == filled(
                *render,
                model,
                old(self).pending(),
                old(self).shape(sample_rate),
                old(output)@.len(),
            ).model,
    {
        let ghost model0 = model;
        let ghost pending0 = self.pending();
        let ghost buffer0 = self.buffer@;
        let ghost cursor0 = self.cursor as int;
        let ghost shape = self.shape(sample_rate);
        let mut model = model;
        let wanted = output.len();
        let len = self.buffer.len();
        proof {
            self.lemma_pending_len();
        }
        self.buffer.set_sample_rate(sample_rate);
        let mut written: usize = 0;
        let ghost mut renders: nat = 0;
        while written < wanted
            invariant
                self.buffer.wf(),
                self.buffer@.len() == len,
                len == shape.silence.len(),
                len > 0,
                len == self.num_frames * self.buffer.spec_channels(),
                self.num_frames == old(self).num_frames,
                self.num_frames > 0,
                self.equilibrium == old(self).equilibrium,
                self.buffer.spec_channels() == old(self).buffer.spec_channels(),
                self.buffer.spec_sample_rate() == sample_rate,
                shape == old(self).shape(sample_rate),
                self.cursor <= len,
                output@.len() == wanted,
                written <= wanted,
                pending0 == buffer0.skip(cursor0),
                buffer0.len() == len,
                0 <= cursor0 <= len,
                renders == 0 ==> self.buffer@ == buffer0 && self.cursor == cursor0 + written,
                renders > 0 ==> self.buffer@ == rendered_block(
                    *render,
                    model0,
                    shape,
                    (renders - 1) as nat,
                ) && written - pending0.len() == (renders - 1) * len + self.cursor && self.cursor
                    >= 1,
                model == model_after_renders(*render, model0, shape, renders),
                forall|j: int|
                    0 <= j < written ==> output@[j] == stream_sample(
                        *render,
                        model0,
                        pending0,
                        shape,
                        j,
                    ),
            decreases wanted - written,
        {
            if self.cursor == len {
                self.buffer.fill(self.equilibrium);
                assert(self.buffer@ =~= shape.silence);
                render.render(&mut model, &mut self.buffer);
                self.cursor = 0;
                proof {
                    if renders > 0 {
                        assert(written - pending0.len() == renders * len) by (nonlinear_arith)
                            requires
                                written - pending0.len() == (renders - 1) * len + len,
                        ;
                    }
                    renders = renders + 1;
                    assert((renders - 1) * len == written - pending0.len()) by (nonlinear_arith)
                        requires
                            renders == 1 ==> written - pending0.len() == 0,
                            renders > 1 ==> written - pending0.len() == (renders - 1) * len,
                            renders >= 1,
                    ;
                }
            }
            let at = self.cursor;
            let count = if wanted - written < len - at {
                wanted - written
            } else {
                len - at
            };
            let mut taken: usize = 0;
            while taken < count
                invariant
                    self.buffer@.len() == len,
                    at + count <= len,
                    written + count <= wanted,
                    output@.len() == wanted,
                    taken <= count,
                    len == shape.silence.len(),
                    len > 0,
                    pending0 == buffer0.skip(cursor0),
                    buffer0.len() == len,
                    0 <= cursor0 <= len,
                    renders == 0 ==> self.buffer@ == buffer0 && at == cursor0 + written,
                    renders > 0 ==> self.buffer@ == rendered_block(
                        *render,
                        model0,
                        shape,
                        (renders - 1) as nat,
                    ) && written - pending0.len() == (renders - 1) * len + at,
                    forall|j: int|
                        0 <= j < written + taken ==> output@[j] == stream_sample(
                            *render,
                            model0,
                            pending0,
                            shape,
                            j,
                        ),
                decreases count - taken,
            {
                let sample = self.buffer.get(at + taken);
                proof {
                    let j = (written + taken) as int;
                    if renders > 0 {
                        let beyond = j - pending0.len();
                        vstd::arithmetic::div_mod::lemma_fundamental_div_mod_converse(
                            beyond,
                            len as int,
                            renders - 1,
                            (at + taken) as int,
                        );
                    }
                    assert(sample == stream_sample(*render, model0, pending0, shape, j));
                }
                output[written + taken] = sample;
                taken += 1;
            }
            self.cursor = at + count;
            written = written + count;
        }
        proof {
            let result = filled(*render, model0, pending0, shape, wanted as nat);
            if renders > 0 {
                assert(renders * len == (renders - 1) * len + len) by (nonlinear_arith);
                vstd::arithmetic::div_mod::lemma_fundamental_div_mod_converse(
                    wanted - pending0.len() + len - 1,
                    len as int,
                    renders as int,
                    self.cursor - 1,
                );
                assert(result.renders == renders);
            } else {
                assert(self.pending() =~= pending0.skip(wanted as int));
            }
            assert(output@ =~= result.output);
        }
        model
    }

    /// The number of frames in each buffer given to the render function.
    pub fn num_frames(&self) -> (n: usize)
        ensures
            n == self.spec_num_frames(),
    {
        self.num_frames
    }

    /// The sample that stands for silence.
    pub fn equilibrium(&self) -> (sample: S)
        ensures
            sample == self.spec_equilibrium(),
    {
        self.equilibrium
    }

    /// The number of channels in each frame.
    pub fn num_channels(&self) -> (n: usize)
        ensures
            n == self.spec_num_channels(),
    {
        self.buffer.channels()
    }

    /// The number of samples that are pending.
    pub fn num_pending(&self) -> (n: usize)
        requires
            self.wf(),
        ensures
            n == self.pending().len(),
    {
        self.buffer.len() - self.cursor
    }
}

} // verus!
