use nannou::audio::stream::{find_best_matching_format, BuildError, Request};
use nannou::audio::{Device, Format, SampleFormat, SupportedFormat};

fn family(channels: u16, min: u32, max: u32, data_type: SampleFormat) -> SupportedFormat {
    SupportedFormat { channels, min_sample_rate: min, max_sample_rate: max, data_type }
}

fn format(channels: u16, sample_rate: u32, data_type: SampleFormat) -> Format {
    Format { channels, sample_rate, data_type }
}

fn supported() -> Vec<SupportedFormat> {
    vec![
        family(1, 8_000, 22_050, SampleFormat::I16),
        family(2, 44_100, 48_000, SampleFormat::I16),
        family(2, 8_000, 16_000, SampleFormat::F32),
        family(2, 44_100, 48_000, SampleFormat::F32),
        family(6, 48_000, 48_000, SampleFormat::F32),
        family(2, 88_200, 96_000, SampleFormat::F32),
    ]
}

#[test]
fn the_default_format_is_taken_when_it_serves() {
    let default = Some(format(2, 44_100, SampleFormat::F32));
    let found = find_best_matching_format(
        SampleFormat::F32,
        Some(2),
        Some(44_100),
        default,
        &supported(),
    );
    assert_eq!(found, Ok(format(2, 44_100, SampleFormat::F32)));
}

#[test]
fn the_default_format_is_taken_at_its_own_rate_when_none_is_requested() {
    let default = Some(format(2, 46_000, SampleFormat::F32));
    let found = find_best_matching_format(SampleFormat::F32, None, None, default, &supported());
    assert_eq!(found, Ok(format(2, 46_000, SampleFormat::F32)));
}

#[test]
fn the_default_format_is_taken_at_a_requested_rate_that_the_device_supports() {
    let default = Some(format(2, 44_100, SampleFormat::F32));
    let found = find_best_matching_format(
        SampleFormat::F32,
        Some(2),
        Some(96_000),
        default,
        &supported(),
    );
    assert_eq!(found, Ok(format(2, 96_000, SampleFormat::F32)));
}

#[test]
fn a_default_format_of_another_encoding_is_passed_over() {
    let default = Some(format(2, 44_100, SampleFormat::I16));
    let found = find_best_matching_format(
        SampleFormat::F32,
        Some(2),
        Some(44_100),
        default,
        &supported(),
    );
    assert_eq!(found, Ok(format(2, 44_100, SampleFormat::F32)));
}

#[test]
fn a_default_format_of_another_channel_count_is_passed_over() {
    let default = Some(format(2, 48_000, SampleFormat::F32));
    let found = find_best_matching_format(
        SampleFormat::F32,
        Some(6),
        Some(48_000),
        default,
        &supported(),
    );
    assert_eq!(found, Ok(format(6, 48_000, SampleFormat::F32)));
}

#[test]
fn a_default_format_that_the_device_does_not_support_is_passed_over() {
    let default = Some(format(4, 44_100, SampleFormat::F32));
    let found = find_best_matching_format(SampleFormat::F32, None, Some(44_100), default, &supported());
    assert_eq!(found, Ok(format(2, 44_100, SampleFormat::F32)));
}

#[test]
fn the_first_family_that_holds_the_requested_rate_wins() {
    let found =
        find_best_matching_format(SampleFormat::F32, Some(2), Some(90_000), None, &supported());
    assert_eq!(found, Ok(format(2, 90_000, SampleFormat::F32)));
    let found =
        find_best_matching_format(SampleFormat::F32, Some(2), Some(12_000), None, &supported());
    assert_eq!(found, Ok(format(2, 12_000, SampleFormat::F32)));
}

#[test]
fn a_rate_between_two_families_gets_the_nearest_one() {
    // 30 000 is 14 000 above the first stereo float family and 14 100 below
    // the second.
    let found =
        find_best_matching_format(SampleFormat::F32, Some(2), Some(30_000), None, &supported());
    assert_eq!(found, Ok(format(2, 16_000, SampleFormat::F32)));
    // 31 000 is 15 000 above the first and 13 100 below the second.
    let found =
        find_best_matching_format(SampleFormat::F32, Some(2), Some(31_000), None, &supported());
    assert_eq!(found, Ok(format(2, 44_100, SampleFormat::F32)));
}

#[test]
fn of_two_families_at_the_same_distance_the_first_wins() {
    let families = vec![
        family(2, 10_000, 20_000, SampleFormat::I16),
        family(2, 40_000, 50_000, SampleFormat::I16),
    ];
    let found = find_best_matching_format(SampleFormat::I16, None, Some(30_000), None, &families);
    assert_eq!(found, Ok(format(2, 20_000, SampleFormat::I16)));
}

#[test]
fn a_rate_beyond_every_family_never_fails() {
    let found =
        find_best_matching_format(SampleFormat::F32, Some(2), Some(1), None, &supported());
    assert_eq!(found, Ok(format(2, 8_000, SampleFormat::F32)));
    let found =
        find_best_matching_format(SampleFormat::F32, Some(2), Some(u32::MAX), None, &supported());
    assert_eq!(found, Ok(format(2, 96_000, SampleFormat::F32)));
}

#[test]
fn without_a_requested_rate_the_first_family_gives_its_highest() {
    let found = find_best_matching_format(SampleFormat::I16, None, None, None, &supported());
    assert_eq!(found, Ok(format(1, 22_050, SampleFormat::I16)));
    let found = find_best_matching_format(SampleFormat::F32, Some(2), None, None, &supported());
    assert_eq!(found, Ok(format(2, 16_000, SampleFormat::F32)));
}

#[test]
fn a_channel_count_that_no_family_has_is_not_supported() {
    let default = Some(format(2, 44_100, SampleFormat::F32));
    let found = find_best_matching_format(
        SampleFormat::F32,
        Some(3),
        Some(44_100),
        default,
        &supported(),
    );
    assert_eq!(found, Err(BuildError::FormatUnsupported));
    let found = find_best_matching_format(
        SampleFormat::F32,
        Some(70_000),
        Some(44_100),
        default,
        &supported(),
    );
    assert_eq!(found, Err(BuildError::FormatUnsupported));
}

#[test]
fn an_encoding_that_no_family_has_is_not_supported() {
    let found =
        find_best_matching_format(SampleFormat::U16, Some(2), Some(44_100), None, &supported());
    assert_eq!(found, Err(BuildError::FormatUnsupported));
    let found = find_best_matching_format(SampleFormat::I16, Some(6), None, None, &supported());
    assert_eq!(found, Err(BuildError::FormatUnsupported));
}

#[test]
fn a_device_that_supports_nothing_supports_no_request() {
    let default = Some(format(2, 44_100, SampleFormat::F32));
    let found = find_best_matching_format(SampleFormat::F32, None, None, default, &Vec::new());
    assert_eq!(found, Err(BuildError::FormatUnsupported));
}

#[test]
fn families_without_channels_or_without_rates_are_never_chosen() {
    let families = vec![
        family(0, 44_100, 48_000, SampleFormat::F32),
        family(2, 48_000, 44_100, SampleFormat::F32),
    ];
    let found = find_best_matching_format(SampleFormat::F32, None, Some(44_100), None, &families);
    assert_eq!(found, Err(BuildError::FormatUnsupported));
}

#[test]
fn the_same_request_is_always_answered_in_the_same_way() {
    let default = Some(format(1, 8_000, SampleFormat::I16));
    for rate in [None, Some(1), Some(30_000), Some(44_100), Some(200_000)] {
        for channels in [None, Some(1), Some(2), Some(3), Some(6)] {
            for encoding in [SampleFormat::I16, SampleFormat::U16, SampleFormat::F32] {
                let first = find_best_matching_format(encoding, channels, rate, default, &supported());
                let second = find_best_matching_format(encoding, channels, rate, default, &supported());
                assert_eq!(first, second);
                if let Ok(found) = first {
                    assert_eq!(found.data_type, encoding);
                    if let Some(channels) = channels {
                        assert_eq!(found.channels as usize, channels);
                    }
                    let device = Device {
                        index: 0,
                        default_format: default,
                        supported_formats: supported(),
                    };
                    assert!(device.supports(&found));
                }
            }
        }
    }
}

#[test]
fn a_device_supports_what_one_of_its_families_holds() {
    let device = Device { index: 3, default_format: None, supported_formats: supported() };
    assert!(device.supports(&format(2, 44_100, SampleFormat::I16)));
    assert!(device.supports(&format(2, 48_000, SampleFormat::I16)));
    assert!(!device.supports(&format(2, 48_001, SampleFormat::I16)));
    assert!(!device.supports(&format(2, 44_099, SampleFormat::I16)));
    assert!(!device.supports(&format(2, 44_100, SampleFormat::U16)));
    assert!(!device.supports(&format(3, 44_100, SampleFormat::I16)));
}

#[test]
fn a_request_measures_how_far_its_rate_lies_outside_a_family() {
    let request =
        Request { sample_format: SampleFormat::F32, channels: Some(2), sample_rate: Some(30_000) };
    let below = family(2, 8_000, 16_000, SampleFormat::F32);
    let above = family(2, 44_100, 48_000, SampleFormat::F32);
    let around = family(2, 8_000, 48_000, SampleFormat::F32);
    assert_eq!(request.distance_to(&below), 14_000);
    assert_eq!(request.distance_to(&above), 14_100);
    assert_eq!(request.distance_to(&around), 0);
    assert_eq!(request.nearest_format(&below), format(2, 16_000, SampleFormat::F32));
    assert_eq!(request.nearest_format(&above), format(2, 44_100, SampleFormat::F32));
    assert_eq!(request.nearest_format(&around), format(2, 30_000, SampleFormat::F32));
    let any_rate = Request { sample_rate: None, ..request };
    assert_eq!(any_rate.distance_to(&below), 0);
    assert_eq!(any_rate.nearest_format(&below), format(2, 16_000, SampleFormat::F32));
}

#[test]
fn a_request_admits_the_families_of_its_encoding_and_channel_count() {
    let request =
        Request { sample_format: SampleFormat::I16, channels: Some(2), sample_rate: None };
    assert!(request.is_admitting(&family(2, 1, 2, SampleFormat::I16)));
    assert!(request.is_admitting(&family(2, 2, 2, SampleFormat::I16)));
    assert!(!request.is_admitting(&family(2, 3, 2, SampleFormat::I16)));
    assert!(!request.is_admitting(&family(1, 1, 2, SampleFormat::I16)));
    assert!(!request.is_admitting(&family(2, 1, 2, SampleFormat::U16)));
    let any_channels = Request { channels: None, ..request };
    assert!(any_channels.is_admitting(&family(7, 1, 2, SampleFormat::I16)));
    assert!(!any_channels.is_admitting(&family(0, 1, 2, SampleFormat::I16)));
}
