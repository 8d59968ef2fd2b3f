//! Items related to the dynamic render pass description: a render pass whose
//! attachments, subpasses and dependencies are lists that can change while the
//! program runs, and that are checked for correctness when they are used.
//!
//! The descriptions hold what the checks read: of an attachment its format and
//! its number of samples, of a subpass the attachments that it refers to, by
//! their place in the list of attachments, each with its image layout.

use vstd::prelude::*;

verus! {

/// The layout of the pixels of an image in memory.
#[derive(Clone, Copy, Debug, PartialEq, Eq, Structural)]
pub enum ImageLayout {
    Undefined,
    General,
    ColorAttachmentOptimal,
    DepthStencilAttachmentOptimal,
    DepthStencilReadOnlyOptimal,
    ShaderReadOnlyOptimal,
    TransferSrcOptimal,
    TransferDstOptimal,
    Preinitialized,
    PresentSrc,
}

/// The format of the pixels of an image, by the number that the graphics
/// interface gives it.
#[derive(Clone, Copy, Debug, PartialEq, Eq, Structural)]
pub struct Format(pub u32);

/// Describes an attachment that will be used in a render pass.
#[derive(Clone, Copy, Debug, PartialEq, Eq, Structural)]
pub struct AttachmentDescription {
    /// Format of the image that is going to be bound.
    pub format: Format,
    /// Number of samples of the image that is going to be bound.
    pub samples: u32,
}

/// Describes one of the passes of a render pass. Each attachment is given by
/// its place in the list of attachments.
#[derive(Clone, Debug, PartialEq, Eq)]
pub struct PassDescription {
    /// Indices and layouts of attachments to use as color attachments.
    pub color_attachments: Vec<(usize, ImageLayout)>,
    /// Index and layout of the attachment to use as depth-stencil attachment.
    pub depth_stencil: Option<(usize, ImageLayout)>,
    /// Indices and layouts of attachments to use as input attachments.
    pub input_attachments: Vec<(usize, ImageLayout)>,
    /// If not empty, each color attachment will be resolved into each
    /// corresponding entry of this list.
    pub resolve_attachments: Vec<(usize, ImageLayout)>,
    /// Indices of attachments that will be preserved during this pass.
    pub preserve_attachments: Vec<usize>,
}

/// Describes a dependency between two passes of a render pass.
#[derive(Clone, Copy, Debug, PartialEq, Eq, Structural)]
pub struct PassDependencyDescription {
    /// Index of the subpass that writes the data that `destination_subpass` is
    /// going to use.
    pub source_subpass: usize,
    /// Index of the subpass that reads the data that `source_subpass` wrote.
    pub destination_subpass: usize,
    /// Whether the destination may start on the pixels that the source has
    /// finished, before the source has finished them all.
    pub by_region: bool,
}

/// The error returned by `validate_descriptions`.
#[derive(Clone, Copy, Debug, PartialEq, Eq, Structural)]
pub enum InvalidDescriptionError {
    /// Two color/depth/stencil attachments within a single subpass had differing samples.
    InvalidSamples {
        subpass_idx: usize,
        attachment_a_idx: usize,
        attachment_a_samples: u32,
        attachment_b_idx: usize,
        attachment_b_samples: u32,
    },
    /// The subpass contained an invalid index to an attachment.
    SubpassInvalidAttachmentIndex { subpass_idx: usize, invalid_attachment_idx: usize },
    /// Although the same attachment was referenced in both the `color_attachments`/`depth_stencil`
    /// field and `input_attachment` fields, their `ImageLayout`s differed.
    SubpassInvalidImageLayout {
        subpass_idx: usize,
        attachment_idx: usize,
        layout: ImageLayout,
        input_layout: ImageLayout,
    },
    /// A preserve attachment was found that was contained in one of the other members.
    SubpassInvalidPreserveAttachment { subpass_idx: usize, attachment_idx: usize },
    /// A resolve attachment had a number of samples specified that was greater than one.
    SubpassInvalidResolveAttachmentSamples {
        subpass_idx: usize,
        attachment_idx: usize,
        attachment_samples: u32,
    },
    /// A color attachment had a `samples` value of 1 or 0 even though a resolve attachment was
    /// included.
    SubpassInvalidColorAttachmentSamples {
        subpass_idx: usize,
        attachment_idx: usize,
        attachment_samples: u32,
    },
    /// The subpass contained one or more resolve attachments and there was a mismatch between one
    /// of the resolve and color attachment formats.
    SubpassInvalidAttachmentFormat {
        subpass_idx: usize,
        attachment_a_idx: usize,
        attachment_a_format: Format,
        attachment_b_idx: usize,
        attachment_b_format: Format,
    },
}

/// The place of the first item of `items` of which `wrong` holds.
pub open spec fn first_where<T>(items: Seq<T>, wrong: spec_fn(T) -> bool) -> Option<int>
    decreases items.len(),
{
    if items.len() == 0 {
        None
    } else {
        match first_where(items.drop_last(), wrong) {
            Some(i) => Some(i),
            None => if wrong(items.last()) {
                Some(items.len() - 1)
            } else {
                None
            },
        }
    }
}

/// `first_where` finds an item of which `wrong` holds, before which there is
/// no other; it finds none only where there is none.
pub proof fn lemma_first_where<T>(items: Seq<T>, wrong: spec_fn(T) -> bool)
    ensures
        match first_where(items, wrong) {
            Some(i) => 0 <= i < items.len() && wrong(items[i]) && forall|j: int|
                0 <= j < i ==> !wrong(#[trigger] items[j]),
            None => forall|j: int| 0 <= j < items.len() ==> !wrong(#[trigger] items[j]),
        },
    decreases items.len(),
{
    if items.len() > 0 {
        lemma_first_where(items.drop_last(), wrong);
        assert(forall|j: int| 0 <= j < items.len() - 1 ==> items.drop_last()[j] == items[j]);
    }
}

/// Where nothing is found among the first `n` items and item `n` is not wrong,
/// nothing is found among the first `n + 1`; where item `n` is wrong, it is
/// the one found.
pub proof fn lemma_first_where_next<T>(items: Seq<T>, wrong: spec_fn(T) -> bool, n: int)
    requires
        0 <= n < items.len(),
        first_where(items.take(n), wrong) is None,
    ensures
        first_where(items.take(n + 1), wrong) == (if wrong(items[n]) {
            Some(n)
        } else {
            None
        }),
{
    assert(items.take(n + 1).drop_last() =~= items.take(n));
}

/// The places in the list of attachments to which `references` refer.
pub open spec fn indices(references: Seq<(usize, ImageLayout)>) -> Seq<usize> {
    Seq::new(references.len(), |i: int| references[i].0)
}

/// The index lies outside a list of `len` attachments.
pub open spec fn out_of_range(len: int) -> spec_fn(usize) -> bool {
    |index: usize| index >= len
}

/// The attachment at the index has another number of samples than `samples`.
pub open spec fn other_samples(attachments: Seq<AttachmentDescription>, samples: u32) -> spec_fn(
    usize,
) -> bool {
    |index: usize| attachments[index as int].samples != samples
}

/// The attachment at the index has at most one sample.
pub open spec fn single_sampled(attachments: Seq<AttachmentDescription>) -> spec_fn(usize) -> bool {
    |index: usize| attachments[index as int].samples <= 1
}

/// The attachment at the index has another format than `format`.
pub open spec fn other_format(attachments: Seq<AttachmentDescription>, format: Format) -> spec_fn(
    usize,
) -> bool {
    |index: usize| attachments[index as int].format != format
}

/// The input attachment refers to the same attachment as `reference`, in
/// another layout.
pub open spec fn other_layout(reference: (usize, ImageLayout)) -> spec_fn(
    (usize, ImageLayout),
) -> bool {
    |input: (usize, ImageLayout)| reference.0 == input.0 && reference.1 != input.1
}

/// One of `inputs` refers to the same attachment as the reference, in another
/// layout.
pub open spec fn clashes_with(inputs: Seq<(usize, ImageLayout)>) -> spec_fn(
    (usize, ImageLayout),
) -> bool {
    |reference: (usize, ImageLayout)| first_where(inputs, other_layout(reference)) is Some
}

/// The index is one of `preserved`.
pub open spec fn preserved_in(preserved: Seq<usize>) -> spec_fn(usize) -> bool {
    |index: usize| preserved.contains(index)
}

/// The checks that a subpass must pass, in the order in which they are made.
#[derive(Clone, Copy, Debug, PartialEq, Eq, Structural)]
pub enum Check {
    /// Every attachment that the subpass refers to is in the list.
    Indices,
    /// The color and depth-stencil attachments have the same number of
    /// samples.
    Samples,
    /// No attachment is drawn to in one layout and read as input in another.
    Layouts,
    /// No attachment that the subpass uses is among those it preserves.
    Preserved,
    /// Where colors are resolved: the resolve attachments have one sample, the
    /// color attachments more than one, and all of them one format.
    Resolved,
}

/// The attachment index that a subpass refers to and the list does not have:
/// the first one among the color, depth-stencil, input and preserve
/// attachments, in this order.
pub open spec fn invalid_index(
    attachments: Seq<AttachmentDescription>,
    subpass: PassDescription,
    subpass_idx: usize,
) -> Option<InvalidDescriptionError> {
    match first_where(subpass.referenced(), out_of_range(attachments.len() as int)) {
        Some(k) => Some(
            InvalidDescriptionError::SubpassInvalidAttachmentIndex {
                subpass_idx,
                invalid_attachment_idx: subpass.referenced()[k],
            },
        ),
        None => None,
    }
}

/// The first of the color and depth-stencil attachments that has another
/// number of samples than the first of them all.
pub open spec fn invalid_samples(
    attachments: Seq<AttachmentDescription>,
    subpass: PassDescription,
    subpass_idx: usize,
) -> Option<InvalidDescriptionError> {
    let drawn = indices(subpass.color_and_depth());
    if drawn.len() == 0 {
        None
    } else {
        let first = drawn[0];
        let samples = attachments[first as int].samples;
        match first_where(drawn.skip(1), other_samples(attachments, samples)) {
            Some(k) => Some(
                InvalidDescriptionError::InvalidSamples {
                    subpass_idx,
                    attachment_a_idx: first,
                    attachment_a_samples: samples,
                    attachment_b_idx: drawn[k + 1],
                    attachment_b_samples: attachments[drawn[k + 1] as int].samples,
                },
            ),
            None => None,
        }
    }
}

/// The first of the color and depth-stencil attachments that is also read as
/// input in another layout, with the first input attachment that does so.
pub open spec fn invalid_layout(subpass: PassDescription, subpass_idx: usize) -> Option<
    InvalidDescriptionError,
> {
    let drawn = subpass.color_and_depth();
    let inputs = subpass.input_attachments@;
    match first_where(drawn, clashes_with(inputs)) {
        Some(k) => Some(
            InvalidDescriptionError::SubpassInvalidImageLayout {
                subpass_idx,
                attachment_idx: drawn[k].0,
                layout: drawn[k].1,
                input_layout: inputs[first_where(inputs, other_layout(drawn[k]))->0].1,
            },
        ),
        None => None,
    }
}

/// The first of the color, depth-stencil and input attachments that is also
/// among the preserve attachments.
pub open spec fn invalid_preserve(subpass: PassDescription, subpass_idx: usize) -> Option<
    InvalidDescriptionError,
> {
    let used = indices(subpass.drawn_and_input());
    match first_where(used, preserved_in(subpass.preserve_attachments@)) {
        Some(k) => Some(
            InvalidDescriptionError::SubpassInvalidPreserveAttachment {
                subpass_idx,
                attachment_idx: used[k],
            },
        ),
        None => None,
    }
}

/// What is wrong with the resolve attachments of a subpass that has some: the
/// first of them that has not one sample; else the first color attachment
/// that has not more than one; else the first of the resolve and color
/// attachments that has another format than the first of them all.
pub open spec fn invalid_resolve(
    attachments: Seq<AttachmentDescription>,
    subpass: PassDescription,
    subpass_idx: usize,
) -> Option<InvalidDescriptionError> {
    let resolve = indices(subpass.resolve_attachments@);
    let color = indices(subpass.color_attachments@);
    let all = indices(subpass.resolve_and_color());
    if resolve.len() == 0 {
        None
    } else {
        match first_where(resolve, other_samples(attachments, 1)) {
            Some(k) => Some(
                InvalidDescriptionError::SubpassInvalidResolveAttachmentSamples {
                    subpass_idx,
                    attachment_idx: resolve[k],
                    attachment_samples: attachments[resolve[k] as int].samples,
                },
            ),
            None => match first_where(color, single_sampled(attachments)) {
                Some(k) => Some(
                    InvalidDescriptionError::SubpassInvalidColorAttachmentSamples {
                        subpass_idx,
                        attachment_idx: color[k],
                        attachment_samples: attachments[color[k] as int].samples,
                    },
                ),
                None => match first_where(
                    all.skip(1),
                    other_format(attachments, attachments[all[0] as int].format),
                ) {
                    Some(k) => Some(
                        InvalidDescriptionError::SubpassInvalidAttachmentFormat {
                            subpass_idx,
                            attachment_a_idx: all[0],
                            attachment_a_format: attachments[all[0] as int].format,
                            attachment_b_idx: all[k + 1],
                            attachment_b_format: attachments[all[k + 1] as int].format,
                        },
                    ),
                    None => None,
                },
            },
        }
    }
}

/// What `check` finds wrong with a subpass, if anything.
pub open spec fn failure(
    check: Check,
    attachments: Seq<AttachmentDescription>,
    subpass: PassDescription,
    subpass_idx: usize,
) -> Option<InvalidDescriptionError> {
    match check {
        Check::Indices => invalid_index(attachments, subpass, subpass_idx),
        Check::Samples => invalid_samples(attachments, subpass, subpass_idx),
        Check::Layouts => invalid_layout(subpass, subpass_idx),
        Check::Preserved => invalid_preserve(subpass, subpass_idx),
        Check::Resolved => invalid_resolve(attachments, subpass, subpass_idx),
    }
}

/// What `check` finds wrong with the first subpass with which it finds
/// anything wrong.
pub open spec fn first_failure(
    check: Check,
    attachments: Seq<AttachmentDescription>,
    subpasses: Seq<PassDescription>,
) -> Option<InvalidDescriptionError>
    decreases subpasses.len(),
{
    if subpasses.len() == 0 {
        None
    } else {
        match first_failure(check, attachments, subpasses.drop_last()) {
            Some(error) => Some(error),
            None => failure(
                check,
                attachments,
                subpasses.last(),
                (subpasses.len() - 1) as usize,
            ),
        }
    }
}

/// A check that finds nothing wrong with the subpasses finds nothing wrong
/// with any of them.
pub proof fn lemma_no_failure(
    check: Check,
    attachments: Seq<AttachmentDescription>,
    subpasses: Seq<PassDescription>,
)
    requires
        first_failure(check, attachments, subpasses) is None,
    ensures
        forall|s: int|
            0 <= s < subpasses.len() ==> failure(
                check,
                attachments,
                #[trigger] subpasses[s],
                s as usize,
            ) is None,
    decreases subpasses.len(),
{
    if subpasses.len() > 0 {
        lemma_no_failure(check, attachments, subpasses.drop_last());
        assert(forall|s: int|
            0 <= s < subpasses.len() - 1 ==> subpasses.drop_last()[s] == subpasses[s]);
    }
}

/// Whether the subpasses refer to the attachments as they may, and if not,
/// what is wrong: the result of the checks of the indices, the numbers of
/// samples, the layouts and the preserve attachments.
///
/// The checks are made one after the other, each on all subpasses in their
/// order before the next is made; what is reported is what the first check
/// that finds anything finds with the first subpass with which it does.
pub open spec fn validated_references(
    attachments: Seq<AttachmentDescription>,
    subpasses: Seq<PassDescription>,
) -> Result<(), InvalidDescriptionError> {
    if let Some(error) = first_failure(Check::Indices, attachments, subpasses) {
        Err(error)
    } else if let Some(error) = first_failure(Check::Samples, attachments, subpasses) {
        Err(error)
    } else if let Some(error) = first_failure(Check::Layouts, attachments, subpasses) {
        Err(error)
    } else if let Some(error) = first_failure(Check::Preserved, attachments, subpasses) {
        Err(error)
    } else {
        Ok(())
    }
}

/// Whether the descriptions are valid, and if not, what is wrong with them:
/// what `validated_references` finds, or else what the check of the resolve
/// attachments finds with the first subpass with which it finds anything.
pub open spec fn validated(
    attachments: Seq<AttachmentDescription>,
    subpasses: Seq<PassDescription>,
) -> Result<(), InvalidDescriptionError> {
    if let Err(error) = validated_references(attachments, subpasses) {
        Err(error)
    } else if let Some(error) = first_failure(Check::Resolved, attachments, subpasses) {
        Err(error)
    } else {
        Ok(())
    }
}

/// Every attachment that the subpass draws to, reads, or preserves is in a
/// list of `len` attachments.
pub open spec fn references_in_range(subpass: PassDescription, len: int) -> bool {
    forall|k: int| 0 <= k < subpass.referenced().len() ==> #[trigger] subpass.referenced()[k] < len
}

/// Every attachment that the subpass resolves into is in a list of `len`
/// attachments.
pub open spec fn resolves_in_range(subpass: PassDescription, len: int) -> bool {
    forall|k: int|
        0 <= k < subpass.resolve_attachments@.len() ==> (#[trigger] subpass.resolve_attachments@[k]).0
            < len
}

impl PassDescription {
    /// The color attachments and, behind them, the depth-stencil attachment
    /// if there is one.
    pub open spec fn color_and_depth(&self) -> Seq<(usize, ImageLayout)> {
        match self.depth_stencil {
            Some(reference) => self.color_attachments@.push(reference),
            None => self.color_attachments@,
        }
    }

    /// The color attachments, the depth-stencil attachment and the input
    /// attachments, in this order.
    pub open spec fn drawn_and_input(&self) -> Seq<(usize, ImageLayout)> {
        self.color_and_depth() + self.input_attachments@
    }

    /// The indices of the color, depth-stencil and input attachments, and
    /// behind them those of the preserve attachments.
    pub open spec fn referenced(&self) -> Seq<usize> {
        indices(self.drawn_and_input()) + self.preserve_attachments@
    }

    /// The resolve attachments and, behind them, the color attachments.
    pub open spec fn resolve_and_color(&self) -> Seq<(usize, ImageLayout)> {
        self.resolve_attachments@ + self.color_attachments@
    }

    /// The color attachments and, behind them, the depth-stencil attachment
    /// if there is one.
    pub fn color_and_depth_references(&self) -> (references: Vec<(usize, ImageLayout)>)
        ensures
            references@ == self.color_and_depth(),
    {
        let mut references: Vec<(usize, ImageLayout)> = Vec::new();
        append_references(&mut references, &self.color_attachments);
        assert(references@ =~= self.color_attachments@);
        if let Some(reference) = self.depth_stencil {
            references.push(reference);
        }
        references
    }

    /// The color attachments, the depth-stencil attachment and the input
    /// attachments, in this order.
    pub fn drawn_and_input_references(&self) -> (references: Vec<(usize, ImageLayout)>)
        ensures
            references@ == self.drawn_and_input(),
    {
        let mut references = self.color_and_depth_references();
        append_references(&mut references, &self.input_attachments);
        references
    }

    /// The resolve attachments and, behind them, the color attachments.
    pub fn resolve_and_color_references(&self) -> (references: Vec<(usize, ImageLayout)>)
        ensures
            references@ == self.resolve_and_color(),
    {
        let mut references: Vec<(usize, ImageLayout)> = Vec::new();
        append_references(&mut references, &self.resolve_attachments);
        append_references(&mut references, &self.color_attachments);
        assert(references@ =~= self.resolve_and_color());
        references
    }
}

/// Puts `more` behind `references`.
fn append_references(references: &mut Vec<(usize, ImageLayout)>, more: &Vec<(usize, ImageLayout)>)
    ensures
        final(references)@ == old(references)@ + more@,
{
    let mut i: usize = 0;
    while i < more.len()
        invariant
            i <= more@.len(),
            references@ == old(references)@ + more@.take(i as int),
        decreases more@.len() - i,
    {
        references.push(more[i]);
        assert(references@ =~= old(references)@ + more@.take(i + 1));
        i += 1;
    }
    assert(more@.take(more@.len() as int) =~= more@);
}

/// The indices to which `references` refer, and behind them `more`.
fn indices_followed_by(references: &Vec<(usize, ImageLayout)>, more: &Vec<usize>) -> (all: Vec<
    usize,
>)
    ensures
        all@ == indices(references@) + more@,
{
    let mut all: Vec<usize> = Vec::new();
    let mut i: usize = 0;
    while i < references.len()
        invariant
            i <= references@.len(),
            all@ == indices(references@).take(i as int),
        decreases references@.len() - i,
    {
        all.push(references[i].0);
        assert(all@ =~= indices(references@).take(i + 1));
        i += 1;
    }
    assert(indices(references@).take(references@.len() as int) =~= indices(references@));
    let ghost first = all@;
    let mut i: usize = 0;
    while i < more.len()
        invariant
            i <= more@.len(),
            all@ == first + more@.take(i as int),
        decreases more@.len() - i,
    {
        all.push(more[i]);
        assert(all@ =~= first + more@.take(i + 1));
        i += 1;
    }
    assert(more@.take(more@.len() as int) =~= more@);
    all
}

/// What is found among the first items is found among all of them.
pub proof fn lemma_first_where_rest<T>(items: Seq<T>, wrong: spec_fn(T) -> bool, n: int)
    requires
        0 <= n < items.len(),
        first_where(items.take(n), wrong) is None,
        wrong(items[n]),
    ensures
        first_where(items, wrong) == Some(n),
{
    lemma_first_where(items, wrong);
    lemma_first_where(items.take(n), wrong);
    assert(forall|j: int| 0 <= j < n ==> items.take(n)[j] == items[j]);
}

/// The place of the first item of `items` that `is_wrong` holds of, where
/// `is_wrong` tells of each item what `wrong` says of it.
fn find_first<T, F: Fn(&T) -> bool>(
    items: &Vec<T>,
    is_wrong: F,
    Ghost(wrong): Ghost<spec_fn(T) -> bool>,
) -> (found: Option<usize>)
    requires
        forall|k: int| 0 <= k < items@.len() ==> call_requires(is_wrong, (&#[trigger] items@[k],)),
        forall|k: int, b: bool|
            0 <= k < items@.len() && call_ensures(is_wrong, (&#[trigger] items@[k],), b) ==> b
                == wrong(items@[k]),
    ensures
        match found {
            Some(i) => i < items@.len() && first_where(items@, wrong) == Some(i as int),
            None => first_where(items@, wrong) is None,
        },
{
    let mut i: usize = 0;
    while i < items.len()
        invariant
            i <= items@.len(),
            first_where(items@.take(i as int), wrong) is None,
            forall|k: int|
                0 <= k < items@.len() ==> call_requires(is_wrong, (&#[trigger] items@[k],)),
            forall|k: int, b: bool|
                0 <= k < items@.len() && call_ensures(is_wrong, (&#[trigger] items@[k],), b) ==> b
                    == wrong(items@[k]),
        decreases items@.len() - i,
    {
        proof {
            lemma_first_where_next(items@, wrong, i as int);
        }
        if is_wrong(&items[i]) {
            proof {
                lemma_first_where_rest(items@, wrong, i as int);
            }
            return Some(i);
        }
        i += 1;
    }
    assert(items@.take(items@.len() as int) =~= items@);
    None
}

/// The indices to which `references` refer.
fn indices_of(references: &Vec<(usize, ImageLayout)>) -> (all: Vec<usize>)
    ensures
        all@ == indices(references@),
{
    let none: Vec<usize> = Vec::new();
    let all = indices_followed_by(references, &none);
    assert(indices(references@) + none@ =~= indices(references@));
    all
}

/// Whether `index` is one of `items`.
fn contains_index(items: &Vec<usize>, index: usize) -> (found: bool)
    ensures
        found == items@.contains(index),
{
    let mut i: usize = 0;
    while i < items.len()
        invariant
            i <= items@.len(),
            forall|j: int| 0 <= j < i ==> items@[j] != index,
        decreases items@.len() - i,
    {
        if items[i] == index {
            return true;
        }
        i += 1;
    }
    false
}

/// What the check of the indices finds wrong with a subpass.
fn check_indices(
    attachments: &[AttachmentDescription],
    subpass: &PassDescription,
    subpass_idx: usize,
) -> (found: Option<InvalidDescriptionError>)
    ensures
        found == invalid_index(attachments@, *subpass, subpass_idx),
{
    let references = subpass.drawn_and_input_references();
    let all = indices_followed_by(&references, &subpass.preserve_attachments);
    let len = attachments.len();
    let is_out_of_range = |index: &usize| -> (b: bool)
        ensures
            b == (*index >= len),
        { *index >= len };
    match find_first(&all, is_out_of_range, Ghost(out_of_range(len as int))) {
        Some(k) => Some(
            InvalidDescriptionError::SubpassInvalidAttachmentIndex {
                subpass_idx,
                invalid_attachment_idx: all[k],
            },
        ),
        None => None,
    }
}

/// What the check of the numbers of samples finds wrong with a subpass.
fn check_samples(
    attachments: &[AttachmentDescription],
    subpass: &PassDescription,
    subpass_idx: usize,
) -> (found: Option<InvalidDescriptionError>)
    requires
        references_in_range(*subpass, attachments@.len() as int),
    ensures
        found == invalid_samples(attachments@, *subpass, subpass_idx),
{
    let references = subpass.color_and_depth_references();
    let mut drawn = indices_of(&references);
    if drawn.len() == 0 {
        return None;
    }
    let ghost all = drawn@;
    proof {
        assert forall|k: int| 0 <= k < all.len() implies #[trigger] all[k] < attachments@.len() by {
            assert(all[k] == subpass.referenced()[k]);
        }
    }
    let first = drawn.remove(0);
    assert(drawn@ =~= all.skip(1));
    let samples = attachments[first].samples;
    let differs = |index: &usize| -> (b: bool)
        requires
            *index < attachments@.len(),
        ensures
            b == (attachments@[*index as int].samples != samples),
        { attachments[*index].samples != samples };
    match find_first(&drawn, differs, Ghost(other_samples(attachments@, samples))) {
        Some(k) => {
            let attachment_b_idx = drawn[k];
            Some(
                InvalidDescriptionError::InvalidSamples {
                    subpass_idx,
                    attachment_a_idx: first,
                    attachment_a_samples: samples,
                    attachment_b_idx,
                    attachment_b_samples: attachments[attachment_b_idx].samples,
                },
            )
        },
        None => None,
    }
}

/// What the check of the layouts finds wrong with a subpass.
fn check_layouts(subpass: &PassDescription, subpass_idx: usize) -> (found: Option<
    InvalidDescriptionError,
>)
    ensures
        found == invalid_layout(*subpass, subpass_idx),
{
    let drawn = subpass.color_and_depth_references();
    let ghost inputs = subpass.input_attachments@;
    let mut k: usize = 0;
    while k < drawn.len()
        invariant
            k <= drawn@.len(),
            drawn@ == subpass.color_and_depth(),
            inputs == subpass.input_attachments@,
            first_where(drawn@.take(k as int), clashes_with(inputs)) is None,
        decreases drawn@.len() - k,
    {
        let reference = drawn[k];
        let clashes = |input: &(usize, ImageLayout)| -> (b: bool)
            ensures
                b == (reference.0 == input.0 && reference.1 != input.1),
            { reference.0 == input.0 && reference.1 != input.1 };
        let clash = find_first(&subpass.input_attachments, clashes, Ghost(other_layout(reference)));
        proof {
            lemma_first_where_next(drawn@, clashes_with(inputs), k as int);
        }
        if let Some(j) = clash {
            proof {
                lemma_first_where_rest(drawn@, clashes_with(inputs), k as int);
            }
            return Some(
                InvalidDescriptionError::SubpassInvalidImageLayout {
                    subpass_idx,
                    attachment_idx: reference.0,
                    layout: reference.1,
                    input_layout: subpass.input_attachments[j].1,
                },
            );
        }
        k += 1;
    }
    assert(drawn@.take(drawn@.len() as int) =~= drawn@);
    None
}

/// What the check of the preserve attachments finds wrong with a subpass.
fn check_preserved(subpass: &PassDescription, subpass_idx: usize) -> (found: Option<
    InvalidDescriptionError,
>)
    ensures
        found == invalid_preserve(*subpass, subpass_idx),
{
    let references = subpass.drawn_and_input_references();
    let used = indices_of(&references);
    let is_preserved = |index: &usize| -> (b: bool)
        ensures
            b == subpass.preserve_attachments@.contains(*index),
        { contains_index(&subpass.preserve_attachments, *index) };
    match find_first(&used, is_preserved, Ghost(preserved_in(subpass.preserve_attachments@))) {
        Some(k) => Some(
            InvalidDescriptionError::SubpassInvalidPreserveAttachment {
                subpass_idx,
                attachment_idx: used[k],
            },
        ),
        None => None,
    }
}

/// What the check of the resolve attachments finds wrong with a subpass.
fn check_resolved(
    attachments: &[AttachmentDescription],
    subpass: &PassDescription,
    subpass_idx: usize,
) -> (found: Option<InvalidDescriptionError>)
    requires
        references_in_range(*subpass, attachments@.len() as int),
        resolves_in_range(*subpass, attachments@.len() as int),
    ensures
        found == invalid_resolve(attachments@, *subpass, subpass_idx),
{
    if subpass.resolve_attachments.len() == 0 {
        return None;
    }
    let resolve = indices_of(&subpass.resolve_attachments);
    let color = indices_of(&subpass.color_attachments);
    proof {
        assert forall|k: int| 0 <= k < resolve@.len() implies #[trigger] resolve@[k]
            < attachments@.len() by {
            assert(resolve@[k] == subpass.resolve_attachments@[k].0);
        }
        assert forall|k: int| 0 <= k < color@.len() implies #[trigger] color@[k]
            < attachments@.len() by {
            assert(color@[k] == subpass.referenced()[k]);
        }
    }
    let not_one_sample = |index: &usize| -> (b: bool)
        requires
            *index < attachments@.len(),
        ensures
            b == (attachments@[*index as int].samples != 1),
        { attachments[*index].samples != 1 };
    if let Some(k) = find_first(&resolve, not_one_sample, Ghost(other_samples(attachments@, 1))) {
        let attachment_idx = resolve[k];
        return Some(
            InvalidDescriptionError::SubpassInvalidResolveAttachmentSamples {
                subpass_idx,
                attachment_idx,
                attachment_samples: attachments[attachment_idx].samples,
            },
        );
    }
    let one_sample_at_most = |index: &usize| -> (b: bool)
        requires
            *index < attachments@.len(),
        ensures
            b == (attachments@[*index as int].samples <= 1),
        { attachments[*index].samples <= 1 };
    if let Some(k) = find_first(&color, one_sample_at_most, Ghost(single_sampled(attachments@))) {
        let attachment_idx = color[k];
        return Some(
            InvalidDescriptionError::SubpassInvalidColorAttachmentSamples {
                subpass_idx,
                attachment_idx,
                attachment_samples: attachments[attachment_idx].samples,
            },
        );
    }
    let references = subpass.resolve_and_color_references();
    let mut rest = indices_of(&references);
    let ghost all = rest@;
    proof {
        assert forall|k: int| 0 <= k < all.len() implies #[trigger] all[k] < attachments@.len() by {
            if k < resolve@.len() {
                assert(all[k] == resolve@[k]);
            } else {
                assert(all[k] == color@[k - resolve@.len()]);
            }
        }
    }
    let first = rest.remove(0);
    assert(rest@ =~= all.skip(1));
    let format = attachments[first].format;
    let differs = |index: &usize| -> (b: bool)
        requires
            *index < attachments@.len(),
        ensures
            b == (attachments@[*index as int].format != format),
        { attachments[*index].format != format };
    match find_first(&rest, differs, Ghost(other_format(attachments@, format))) {
        Some(k) => {
            let attachment_b_idx = rest[k];
            Some(
                InvalidDescriptionError::SubpassInvalidAttachmentFormat {
                    subpass_idx,
                    attachment_a_idx: first,
                    attachment_a_format: format,
                    attachment_b_idx,
                    attachment_b_format: attachments[attachment_b_idx].format,
                },
            )
        },
        None => None,
    }
}

/// What `check` finds wrong with the first subpass with which it finds
/// anything wrong.
fn check_subpasses(
    check: Check,
    attachments: &[AttachmentDescription],
    subpasses: &[PassDescription],
) -> (found: Option<InvalidDescriptionError>)
    requires
        check != Check::Indices ==> forall|s: int|
            0 <= s < subpasses@.len() ==> references_in_range(
                #[trigger] subpasses@[s],
                attachments@.len() as int,
            ),
        check == Check::Resolved ==> forall|s: int|
            0 <= s < subpasses@.len() ==> resolves_in_range(
                #[trigger] subpasses@[s],
                attachments@.len() as int,
            ),
    ensures
        found == first_failure(check, attachments@, subpasses@),
{
    let mut s: usize = 0;
    while s < subpasses.len()
        invariant
            s <= subpasses@.len(),
            first_failure(check, attachments@, subpasses@.take(s as int)) is None,
            check != Check::Indices ==> forall|s: int|
                0 <= s < subpasses@.len() ==> references_in_range(
                    #[trigger] subpasses@[s],
                    attachments@.len() as int,
                ),
            check == Check::Resolved ==> forall|s: int|
                0 <= s < subpasses@.len() ==> resolves_in_range(
                    #[trigger] subpasses@[s],
                    attachments@.len() as int,
                ),
        decreases subpasses@.len() - s,
    {
        let subpass = &subpasses[s];
        let found = match check {
            Check::Indices => check_indices(attachments, subpass, s),
            Check::Samples => check_samples(attachments, subpass, s),
            Check::Layouts => check_layouts(subpass, s),
            Check::Preserved => check_preserved(subpass, s),
            Check::Resolved => check_resolved(attachments, subpass, s),
        };
        proof {
            assert(subpasses@.take(s + 1).drop_last() =~= subpasses@.take(s as int));
        }
        if found.is_some() {
            proof {
                lemma_first_failure_rest(check, attachments@, subpasses@, s as int);
            }
            return found;
        }
        s += 1;
    }
    assert(subpasses@.take(subpasses@.len() as int) =~= subpasses@);
    None
}

/// What is found wrong with a subpass, after nothing was found wrong with
/// those before it, is what is found wrong with the subpasses.
pub proof fn lemma_first_failure_rest(
    check: Check,
    attachments: Seq<AttachmentDescription>,
    subpasses: Seq<PassDescription>,
    s: int,
)
    requires
        0 <= s < subpasses.len(),
        first_failure(check, attachments, subpasses.take(s)) is None,
        failure(check, attachments, subpasses[s], s as usize) is Some,
    ensures
        first_failure(check, attachments, subpasses) == failure(
            check,
            attachments,
            subpasses[s],
            s as usize,
        ),
    decreases subpasses.len(),
{
    if s == subpasses.len() - 1 {
        assert(subpasses.take(s) =~= subpasses.drop_last());
    } else {
        assert(subpasses.drop_last().take(s) =~= subpasses.take(s));
        lemma_first_failure_rest(check, attachments, subpasses.drop_last(), s);
    }
}

/// Checks how the subpasses refer to the attachments: the indices, the
/// numbers of samples, the layouts and the preserve attachments. The resolve
/// attachments are not looked at.
///
/// Gives the first thing that is wrong, as `validated_references` tells, or
/// `Ok` where nothing is.
pub fn validate_references(
    attachment_descriptions: &[AttachmentDescription],
    subpass_descriptions: &[PassDescription],
) -> (result: Result<(), InvalidDescriptionError>)
    ensures
        result == validated_references(attachment_descriptions@, subpass_descriptions@),
        result is Ok ==> forall|s: int|
            0 <= s < subpass_descriptions@.len() ==> references_in_range(
                #[trigger] subpass_descriptions@[s],
                attachment_descriptions@.len() as int,
            ),
{
    if let Some(error) = check_subpasses(
        Check::Indices,
        attachment_descriptions,
        subpass_descriptions,
    ) {
        return Err(error);
    }
    proof {
        lemma_no_failure(Check::Indices, attachment_descriptions@, subpass_descriptions@);
        assert forall|s: int| 0 <= s < subpass_descriptions@.len() implies references_in_range(
            #[trigger] subpass_descriptions@[s],
            attachment_descriptions@.len() as int,
        ) by {
            assert(failure(
                Check::Indices,
                attachment_descriptions@,
                subpass_descriptions@[s],
                s as usize,
            ) is None);
            lemma_first_where(
                subpass_descriptions@[s].referenced(),
                out_of_range(attachment_descriptions@.len() as int),
            );
        }
    }
    if let Some(error) = check_subpasses(
        Check::Samples,
        attachment_descriptions,
        subpass_descriptions,
    ) {
        return Err(error);
    }
    if let Some(error) = check_subpasses(
        Check::Layouts,
        attachment_descriptions,
        subpass_descriptions,
    ) {
        return Err(error);
    }
    if let Some(error) = check_subpasses(
        Check::Preserved,
        attachment_descriptions,
        subpass_descriptions,
    ) {
        return Err(error);
    }
    Ok(())
}

/// Checks the validity of each of the given description lists.
///
/// Gives the first thing that is wrong, as `validated` tells, or `Ok` where
/// nothing is. Where nothing is wrong with how the subpasses refer to the
/// attachments otherwise, the attachments that they resolve into must be in
/// the list of attachments.
pub fn validate_descriptions(
    attachment_descriptions: &[AttachmentDescription],
    subpass_descriptions: &[PassDescription],
    dependency_descriptions: &[PassDependencyDescription],
) -> (result: Result<(), InvalidDescriptionError>)
    requires
        validated_references(attachment_descriptions@, subpass_descriptions@) is Ok ==> forall|
            s: int,
        |
            0 <= s < subpass_descriptions@.len() ==> resolves_in_range(
                #[trigger] subpass_descriptions@[s],
                attachment_descriptions@.len() as int,
            ),
    ensures
        result == validated(attachment_descriptions@, subpass_descriptions@),
{
    if let Err(error) = validate_references(attachment_descriptions, subpass_descriptions) {
        return Err(error);
    }
    if let Some(error) = check_subpasses(
        Check::Resolved,
        attachment_descriptions,
        subpass_descriptions,
    ) {
        return Err(error);
    }
    Ok(())
}

/// A dynamic representation of a render pass description: lists of
/// attachments, subpasses and dependencies that have been found valid.
#[derive(Debug)]
pub struct Description {
    attachment_descriptions: Vec<AttachmentDescription>,
    subpass_descriptions: Vec<PassDescription>,
    dependency_descriptions: Vec<PassDependencyDescription>,
}

impl Description {
    /// The attachments.
    pub closed spec fn attachments(&self) -> Seq<AttachmentDescription> {
        self.attachment_descriptions@
    }

    /// The subpasses.
    pub closed spec fn subpasses(&self) -> Seq<PassDescription> {
        self.subpass_descriptions@
    }

    /// The dependencies between the subpasses.
    pub closed spec fn dependencies(&self) -> Seq<PassDependencyDescription> {
        self.dependency_descriptions@
    }

    /// Nothing is wrong with the lists.
    pub open spec fn wf(&self) -> bool {
        validated(self.attachments(), self.subpasses()) is Ok
    }

    /// The render pass of the given lists, or what is wrong with them. Where
    /// nothing is wrong with how the subpasses refer to the attachments
    /// otherwise, the attachments that they resolve into must be in the list of
    /// attachments.
    pub fn new(
        attachment_descriptions: Vec<AttachmentDescription>,
        subpass_descriptions: Vec<PassDescription>,
        dependency_descriptions: Vec<PassDependencyDescription>,
    ) -> (result: Result<Self, InvalidDescriptionError>)
        requires
            validated_references(attachment_descriptions@, subpass_descriptions@) is Ok ==> forall|
                s: int,
            |
                0 <= s < subpass_descriptions@.len() ==> resolves_in_range(
                    #[trigger] subpass_descriptions@[s],
                    attachment_descriptions@.len() as int,
                ),
        ensures
            match validated(attachment_descriptions@, subpass_descriptions@) {
                Ok(_) => result is Ok && result->Ok_0.wf() && result->Ok_0.attachments()
                    == attachment_descriptions@ && result->Ok_0.subpasses() == subpass_descriptions@
                    && result->Ok_0.dependencies() == dependency_descriptions@,
                Err(error) => result is Err && result->Err_0 == error,
            },
    {
        match validate_descriptions(
            attachment_descriptions.as_slice(),
            subpass_descriptions.as_slice(),
            dependency_descriptions.as_slice(),
        ) {
            Ok(_) => Ok(
                Description { attachment_descriptions, subpass_descriptions, dependency_descriptions },
            ),
            Err(error) => Err(error),
        }
    }

    /// The number of attachments.
    pub fn num_attachments(&self) -> (n: usize)
        ensures
            n == self.attachments().len(),
    {
        self.attachment_descriptions.len()
    }

    /// The attachment with this number, if there is one.
    pub fn attachment_desc(&self, num: usize) -> (description: Option<AttachmentDescription>)
        ensures
            description == (if num < self.attachments().len() {
                Some(self.attachments()[num as int])
            } else {
                None
            }),
    {
        if num < self.attachment_descriptions.len() {
            Some(self.attachment_descriptions[num])
        } else {
            None
        }
    }

    /// The number of subpasses.
    pub fn num_subpasses(&self) -> (n: usize)
        ensures
            n == self.subpasses().len(),
    {
        self.subpass_descriptions.len()
    }

    /// The subpass with this number, if there is one.
    pub fn subpass_desc(&self, num: usize) -> (description: Option<&PassDescription>)
        ensures
            match description {
                Some(description) => num < self.subpasses().len() && *description
                    == self.subpasses()[num as int],
                None => num >= self.subpasses().len(),
            },
    {
        if num < self.subpass_descriptions.len() {
            Some(&self.subpass_descriptions[num])
        } else {
            None
        }
    }

    /// The number of dependencies.
    pub fn num_dependencies(&self) -> (n: usize)
        ensures
            n == self.dependencies().len(),
    {
        self.dependency_descriptions.len()
    }

    /// The dependency with this number, if there is one.
    pub fn dependency_desc(&self, num: usize) -> (description: Option<PassDependencyDescription>)
        ensures
            description == (if num < self.dependencies().len() {
                Some(self.dependencies()[num as int])
            } else {
                None
            }),
    {
        if num < self.dependency_descriptions.len() {
            Some(self.dependency_descriptions[num])
        } else {
            None
        }
    }

    /// The values with which the attachments are cleared, one for each
    /// attachment, in the order of the attachments.
    pub fn convert_clear_values<V>(&self, vals: Vec<V>) -> (values: Vec<V>)
        requires
            vals@.len() == self.attachments().len(),
        ensures
            values@ == vals@,
    {
        vals
    }
}

} // verus!
