use nannou::gpu::render_pass::{
    validate_descriptions, validate_references, AttachmentDescription, Description, Format, ImageLayout,
    InvalidDescriptionError, PassDependencyDescription, PassDescription,
};

const COLOR: ImageLayout = ImageLayout::ColorAttachmentOptimal;
const DEPTH: ImageLayout = ImageLayout::DepthStencilAttachmentOptimal;
const READ: ImageLayout = ImageLayout::ShaderReadOnlyOptimal;

fn attachment(format: u32, samples: u32) -> AttachmentDescription {
    AttachmentDescription { format: Format(format), samples }
}

fn subpass() -> PassDescription {
    PassDescription {
        color_attachments: Vec::new(),
        depth_stencil: None,
        input_attachments: Vec::new(),
        resolve_attachments: Vec::new(),
        preserve_attachments: Vec::new(),
    }
}

fn validate(
    attachments: &[AttachmentDescription],
    subpasses: &[PassDescription],
) -> Result<(), InvalidDescriptionError> {
    validate_descriptions(attachments, subpasses, &[])
}

#[test]
fn empty_lists_are_valid() {
    assert_eq!(validate(&[], &[]), Ok(()));
    assert_eq!(validate(&[attachment(37, 1)], &[]), Ok(()));
    assert_eq!(validate(&[], &[subpass()]), Ok(()));
}

#[test]
fn a_plain_render_pass_is_valid() {
    let attachments = [attachment(37, 4), attachment(126, 4), attachment(37, 1)];
    let first = PassDescription {
        color_attachments: vec![(0, COLOR)],
        depth_stencil: Some((1, DEPTH)),
        resolve_attachments: vec![(2, COLOR)],
        ..subpass()
    };
    let second = PassDescription {
        color_attachments: vec![(2, COLOR)],
        input_attachments: vec![(2, COLOR)],
        preserve_attachments: vec![0],
        ..subpass()
    };
    let dependency =
        PassDependencyDescription { source_subpass: 0, destination_subpass: 1, by_region: true };
    assert_eq!(validate_descriptions(&attachments, &[first, second], &[dependency]), Ok(()));
}

#[test]
fn an_index_outside_the_attachments_is_invalid() {
    let attachments = [attachment(37, 1), attachment(37, 1)];
    let color = PassDescription { color_attachments: vec![(1, COLOR), (2, COLOR)], ..subpass() };
    assert_eq!(
        validate(&attachments, &[subpass(), color]),
        Err(InvalidDescriptionError::SubpassInvalidAttachmentIndex {
            subpass_idx: 1,
            invalid_attachment_idx: 2,
        })
    );
    let depth = PassDescription { depth_stencil: Some((5, DEPTH)), ..subpass() };
    assert_eq!(
        validate(&attachments, &[depth]),
        Err(InvalidDescriptionError::SubpassInvalidAttachmentIndex {
            subpass_idx: 0,
            invalid_attachment_idx: 5,
        })
    );
    let input = PassDescription { input_attachments: vec![(0, READ), (3, READ)], ..subpass() };
    assert_eq!(
        validate(&attachments, &[input]),
        Err(InvalidDescriptionError::SubpassInvalidAttachmentIndex {
            subpass_idx: 0,
            invalid_attachment_idx: 3,
        })
    );
    let preserve = PassDescription { preserve_attachments: vec![1, 4], ..subpass() };
    assert_eq!(
        validate(&attachments, &[preserve]),
        Err(InvalidDescriptionError::SubpassInvalidAttachmentIndex {
            subpass_idx: 0,
            invalid_attachment_idx: 4,
        })
    );
}

#[test]
fn the_first_invalid_index_is_reported_color_before_depth_before_input_before_preserve() {
    let attachments = [attachment(37, 1)];
    let all = PassDescription {
        color_attachments: vec![(0, COLOR), (10, COLOR)],
        depth_stencil: Some((11, DEPTH)),
        input_attachments: vec![(12, READ)],
        preserve_attachments: vec![13],
        ..subpass()
    };
    assert_eq!(
        validate(&attachments, &[all.clone()]),
        Err(InvalidDescriptionError::SubpassInvalidAttachmentIndex {
            subpass_idx: 0,
            invalid_attachment_idx: 10,
        })
    );
    let all = PassDescription { color_attachments: vec![(0, COLOR)], ..all };
    assert_eq!(
        validate(&attachments, &[all.clone()]),
        Err(InvalidDescriptionError::SubpassInvalidAttachmentIndex {
            subpass_idx: 0,
            invalid_attachment_idx: 11,
        })
    );
    let all = PassDescription { depth_stencil: None, ..all };
    assert_eq!(
        validate(&attachments, &[all.clone()]),
        Err(InvalidDescriptionError::SubpassInvalidAttachmentIndex {
            subpass_idx: 0,
            invalid_attachment_idx: 12,
        })
    );
    let all = PassDescription { input_attachments: Vec::new(), ..all };
    assert_eq!(
        validate(&attachments, &[all]),
        Err(InvalidDescriptionError::SubpassInvalidAttachmentIndex {
            subpass_idx: 0,
            invalid_attachment_idx: 13,
        })
    );
}

#[test]
fn differing_samples_within_a_subpass_are_invalid() {
    let attachments = [attachment(37, 4), attachment(37, 4), attachment(126, 2)];
    let color = PassDescription {
        color_attachments: vec![(0, COLOR), (1, COLOR)],
        depth_stencil: Some((2, DEPTH)),
        ..subpass()
    };
    assert_eq!(
        validate(&attachments, &[color]),
        Err(InvalidDescriptionError::InvalidSamples {
            subpass_idx: 0,
            attachment_a_idx: 0,
            attachment_a_samples: 4,
            attachment_b_idx: 2,
            attachment_b_samples: 2,
        })
    );
    let depth_only = PassDescription { depth_stencil: Some((2, DEPTH)), ..subpass() };
    assert_eq!(validate(&attachments, &[depth_only]), Ok(()));
    let inputs_do_not_count = PassDescription {
        color_attachments: vec![(0, COLOR)],
        input_attachments: vec![(2, READ)],
        ..subpass()
    };
    assert_eq!(validate(&attachments, &[inputs_do_not_count]), Ok(()));
}

#[test]
fn an_attachment_drawn_to_and_read_in_different_layouts_is_invalid() {
    let attachments = [attachment(37, 1), attachment(37, 1)];
    let clash = PassDescription {
        color_attachments: vec![(0, COLOR), (1, COLOR)],
        input_attachments: vec![(0, COLOR), (1, COLOR), (1, READ), (1, ImageLayout::General)],
        ..subpass()
    };
    assert_eq!(
        validate(&attachments, &[subpass(), subpass(), clash]),
        Err(InvalidDescriptionError::SubpassInvalidImageLayout {
            subpass_idx: 2,
            attachment_idx: 1,
            layout: COLOR,
            input_layout: READ,
        })
    );
    let depth = PassDescription {
        depth_stencil: Some((1, DEPTH)),
        input_attachments: vec![(0, READ), (1, ImageLayout::DepthStencilReadOnlyOptimal)],
        ..subpass()
    };
    assert_eq!(
        validate(&attachments, &[depth]),
        Err(InvalidDescriptionError::SubpassInvalidImageLayout {
            subpass_idx: 0,
            attachment_idx: 1,
            layout: DEPTH,
            input_layout: ImageLayout::DepthStencilReadOnlyOptimal,
        })
    );
}

#[test]
fn an_attachment_that_is_used_and_preserved_is_invalid() {
    let attachments = [attachment(37, 1), attachment(37, 1), attachment(37, 1)];
    let used = PassDescription {
        color_attachments: vec![(0, COLOR)],
        input_attachments: vec![(1, READ), (2, READ)],
        preserve_attachments: vec![2, 1],
        ..subpass()
    };
    assert_eq!(
        validate(&attachments, &[used]),
        Err(InvalidDescriptionError::SubpassInvalidPreserveAttachment {
            subpass_idx: 0,
            attachment_idx: 1,
        })
    );
    let resolve_does_not_count = PassDescription {
        color_attachments: vec![(0, COLOR)],
        preserve_attachments: vec![1],
        ..subpass()
    };
    assert_eq!(validate(&attachments, &[resolve_does_not_count]), Ok(()));
}

#[test]
fn a_resolve_attachment_must_have_one_sample() {
    let attachments = [attachment(37, 4), attachment(37, 1), attachment(37, 2)];
    let resolved = PassDescription {
        color_attachments: vec![(0, COLOR), (0, COLOR)],
        resolve_attachments: vec![(1, COLOR), (2, COLOR)],
        ..subpass()
    };
    assert_eq!(
        validate(&attachments, &[resolved]),
        Err(InvalidDescriptionError::SubpassInvalidResolveAttachmentSamples {
            subpass_idx: 0,
            attachment_idx: 2,
            attachment_samples: 2,
        })
    );
    let attachments = [attachment(37, 4), attachment(37, 0)];
    let resolved = PassDescription {
        color_attachments: vec![(0, COLOR)],
        resolve_attachments: vec![(1, COLOR)],
        ..subpass()
    };
    assert_eq!(
        validate(&attachments, &[resolved]),
        Err(InvalidDescriptionError::SubpassInvalidResolveAttachmentSamples {
            subpass_idx: 0,
            attachment_idx: 1,
            attachment_samples: 0,
        })
    );
}

#[test]
fn a_color_attachment_that_is_resolved_must_have_more_than_one_sample() {
    let attachments = [attachment(37, 1), attachment(37, 1)];
    let resolved = PassDescription {
        color_attachments: vec![(0, COLOR)],
        resolve_attachments: vec![(1, COLOR)],
        ..subpass()
    };
    assert_eq!(
        validate(&attachments, &[subpass(), resolved]),
        Err(InvalidDescriptionError::SubpassInvalidColorAttachmentSamples {
            subpass_idx: 1,
            attachment_idx: 0,
            attachment_samples: 1,
        })
    );
    let not_resolved = PassDescription { color_attachments: vec![(0, COLOR)], ..subpass() };
    assert_eq!(validate(&attachments, &[not_resolved]), Ok(()));
}

#[test]
fn resolve_and_color_attachments_must_have_one_format() {
    let attachments = [attachment(37, 4), attachment(37, 1), attachment(44, 4), attachment(44, 1)];
    let resolved = PassDescription {
        color_attachments: vec![(0, COLOR), (2, COLOR)],
        resolve_attachments: vec![(1, COLOR), (1, COLOR)],
        ..subpass()
    };
    assert_eq!(
        validate(&attachments, &[resolved]),
        Err(InvalidDescriptionError::SubpassInvalidAttachmentFormat {
            subpass_idx: 0,
            attachment_a_idx: 1,
            attachment_a_format: Format(37),
            attachment_b_idx: 2,
            attachment_b_format: Format(44),
        })
    );
    let resolved = PassDescription {
        color_attachments: vec![(0, COLOR), (0, COLOR)],
        resolve_attachments: vec![(1, COLOR), (3, COLOR)],
        ..subpass()
    };
    assert_eq!(
        validate(&attachments, &[resolved]),
        Err(InvalidDescriptionError::SubpassInvalidAttachmentFormat {
            subpass_idx: 0,
            attachment_a_idx: 1,
            attachment_a_format: Format(37),
            attachment_b_idx: 3,
            attachment_b_format: Format(44),
        })
    );
}

#[test]
fn each_check_is_made_on_all_subpasses_before_the_next() {
    let attachments = [attachment(37, 4), attachment(37, 2)];
    let samples = PassDescription { color_attachments: vec![(0, COLOR), (1, COLOR)], ..subpass() };
    let index = PassDescription { preserve_attachments: vec![2], ..subpass() };
    let layout = PassDescription {
        color_attachments: vec![(0, COLOR)],
        input_attachments: vec![(0, READ)],
        ..subpass()
    };
    let preserve = PassDescription {
        color_attachments: vec![(0, COLOR)],
        preserve_attachments: vec![0],
        ..subpass()
    };
    assert_eq!(
        validate(&attachments, &[samples.clone(), index]),
        Err(InvalidDescriptionError::SubpassInvalidAttachmentIndex {
            subpass_idx: 1,
            invalid_attachment_idx: 2,
        })
    );
    assert_eq!(
        validate(&attachments, &[preserve.clone(), layout.clone(), samples.clone()]),
        Err(InvalidDescriptionError::InvalidSamples {
            subpass_idx: 2,
            attachment_a_idx: 0,
            attachment_a_samples: 4,
            attachment_b_idx: 1,
            attachment_b_samples: 2,
        })
    );
    assert_eq!(
        validate(&attachments, &[preserve, layout]),
        Err(InvalidDescriptionError::SubpassInvalidImageLayout {
            subpass_idx: 1,
            attachment_idx: 0,
            layout: COLOR,
            input_layout: READ,
        })
    );
}

#[test]
fn a_description_holds_the_lists_that_were_found_valid() {
    let attachments = vec![attachment(37, 1), attachment(126, 1)];
    let first = PassDescription {
        color_attachments: vec![(0, COLOR)],
        depth_stencil: Some((1, DEPTH)),
        ..subpass()
    };
    let dependency =
        PassDependencyDescription { source_subpass: 0, destination_subpass: 0, by_region: false };
    let description =
        Description::new(attachments.clone(), vec![first.clone()], vec![dependency]).unwrap();
    assert_eq!(description.num_attachments(), 2);
    assert_eq!(description.attachment_desc(1), Some(attachment(126, 1)));
    assert_eq!(description.attachment_desc(2), None);
    assert_eq!(description.num_subpasses(), 1);
    assert_eq!(description.subpass_desc(0), Some(&first));
    assert_eq!(description.subpass_desc(1), None);
    assert_eq!(description.num_dependencies(), 1);
    assert_eq!(description.dependency_desc(0), Some(dependency));
    assert_eq!(description.dependency_desc(1), None);
    assert_eq!(description.convert_clear_values(vec![0.5f32, 1.0]), vec![0.5, 1.0]);
}

#[test]
fn lists_that_are_not_valid_make_no_description() {
    let invalid = PassDescription { color_attachments: vec![(0, COLOR)], ..subpass() };
    let result = Description::new(Vec::new(), vec![invalid], Vec::new());
    assert_eq!(
        result.err(),
        Some(InvalidDescriptionError::SubpassInvalidAttachmentIndex {
            subpass_idx: 0,
            invalid_attachment_idx: 0,
        })
    );
}

#[test]
fn the_references_are_checked_apart_from_the_resolve_attachments() {
    let attachments = [attachment(37, 1)];
    let resolved = PassDescription {
        color_attachments: vec![(0, COLOR)],
        resolve_attachments: vec![(9, COLOR)],
        ..subpass()
    };
    assert_eq!(validate_references(&attachments, &[resolved.clone()]), Ok(()));
    let invalid = PassDescription { input_attachments: vec![(1, READ)], ..resolved };
    let error = InvalidDescriptionError::SubpassInvalidAttachmentIndex {
        subpass_idx: 0,
        invalid_attachment_idx: 1,
    };
    assert_eq!(validate_references(&attachments, &[invalid.clone()]), Err(error));
    // What is wrong otherwise is reported whatever the resolve attachments are.
    assert_eq!(validate(&attachments, &[invalid]), Err(error));
}
