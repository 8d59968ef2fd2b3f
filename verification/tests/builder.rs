use nannou::audio::buffer::DEFAULT_LEN_FRAMES;
use nannou::audio::stream::input::{self, CaptureFn};
use nannou::audio::stream::output::{self, default_render_fn, fill_output, RenderFn};
use nannou::audio::stream::{BuildError, State, StreamId};
use nannou::audio::{Buffer, Device, Devices, Format, SampleFormat, SupportedFormat};
use std::cell::Cell;

type Update = fn(u32) -> u32;

/// Counts the frames that it is asked for.
struct Frames;

impl RenderFn<u32, i16> for Frames {
    fn render(&self, model: &mut u32, buffer: &mut Buffer<i16>) {
        *model += buffer.len_frames() as u32;
    }
}

impl CaptureFn<u32, i16> for Frames {
    fn capture(&self, model: &mut u32, buffer: &Buffer<i16>) {
        *model += buffer.len_frames() as u32;
    }
}

fn family(channels: u16, min: u32, max: u32, data_type: SampleFormat) -> SupportedFormat {
    SupportedFormat { channels, min_sample_rate: min, max_sample_rate: max, data_type }
}

fn device(index: usize) -> Device {
    Device {
        index,
        default_format: Some(Format {
            channels: 2,
            sample_rate: 48_000,
            data_type: SampleFormat::I16,
        }),
        supported_formats: vec![
            family(2, 8_000, 48_000, SampleFormat::I16),
            family(4, 44_100, 96_000, SampleFormat::I16),
        ],
    }
}

#[test]
fn a_new_builder_leaves_everything_to_the_device() {
    let builder = output::Builder::new(SampleFormat::F32, 0.0f32);
    assert_eq!(builder.builder.sample_rate, None);
    assert_eq!(builder.builder.channels, None);
    assert_eq!(builder.builder.frames_per_buffer, None);
    assert_eq!(builder.builder.device, None);
    assert_eq!(builder.builder.sample_format, SampleFormat::F32);
    assert_eq!(builder.builder.equilibrium, 0.0);
}

#[test]
fn every_step_changes_what_it_names_and_nothing_else() {
    let builder = output::Builder::new(SampleFormat::I16, 0i16)
        .sample_rate(22_050)
        .channels(4)
        .frames_per_buffer(128)
        .device(device(5))
        .model(7u32)
        .render(Frames);
    assert_eq!(builder.builder.model, 7);
    assert_eq!(builder.builder.sample_rate, Some(22_050));
    assert_eq!(builder.builder.channels, Some(4));
    assert_eq!(builder.builder.frames_per_buffer, Some(128));
    assert_eq!(builder.builder.device, Some(device(5)));
    assert_eq!(builder.builder.sample_format, SampleFormat::I16);
    assert_eq!(builder.builder.equilibrium, 0);
    let builder = builder.sample_rate(8_000).channels(2).frames_per_buffer(1);
    assert_eq!(builder.builder.sample_rate, Some(8_000));
    assert_eq!(builder.builder.channels, Some(2));
    assert_eq!(builder.builder.frames_per_buffer, Some(1));
    assert_eq!(builder.builder.model, 7);
}

#[test]
fn without_any_device_the_build_fails_before_the_host_is_asked() {
    let asked = Cell::new(false);
    let result = output::Builder::new(SampleFormat::I16, 0i16)
        .model(0u32)
        .render(Frames)
        .build::<Update, _>(None, |_: &Device, _: &Format| {
            asked.set(true);
            Ok(StreamId(1))
        });
    assert_eq!(result.err(), Some(BuildError::DefaultDevice));
    assert!(!asked.get());
}

#[test]
fn an_unsupported_format_fails_before_the_host_is_asked() {
    let asked = Cell::new(false);
    let result = output::Builder::new(SampleFormat::I16, 0i16)
        .model(0u32)
        .render(Frames)
        .channels(3)
        .build::<Update, _>(Some(device(0)), |_: &Device, _: &Format| {
            asked.set(true);
            Ok(StreamId(1))
        });
    assert_eq!(result.err(), Some(BuildError::FormatUnsupported));
    assert!(!asked.get());
    let result = output::Builder::new(SampleFormat::F32, 0i16)
        .model(0u32)
        .render(Frames)
        .build::<Update, _>(Some(device(0)), |_: &Device, _: &Format| Ok(StreamId(1)));
    assert_eq!(result.err(), Some(BuildError::FormatUnsupported));
}

#[test]
fn what_the_host_refuses_comes_back_as_a_hardware_error() {
    let result = output::Builder::new(SampleFormat::I16, 0i16)
        .model(0u32)
        .render(Frames)
        .build::<Update, _>(Some(device(0)), |_: &Device, _: &Format| {
            Err(String::from("device busy"))
        });
    assert_eq!(result.err(), Some(BuildError::Hardware(String::from("device busy"))));
}

#[test]
fn the_host_is_asked_once_with_the_device_and_the_negotiated_format() {
    let asked = Cell::new(0);
    let (stream, output) = output::Builder::new(SampleFormat::I16, 0i16)
        .model(3u32)
        .render(Frames)
        .channels(4)
        .sample_rate(22_050)
        .device(device(8))
        .build::<Update, _>(Some(device(1)), |device: &Device, format: &Format| {
            asked.set(asked.get() + 1);
            assert_eq!(device.index, 8);
            assert_eq!(
                *format,
                Format { channels: 4, sample_rate: 44_100, data_type: SampleFormat::I16 }
            );
            Ok(StreamId(41))
        })
        .unwrap();
    assert_eq!(asked.get(), 1);
    assert_eq!(stream.id(), StreamId(41));
    assert_eq!(stream.state(), State::Running);
    assert_eq!(*stream.model(), 3);
    assert_eq!(stream.num_pending_updates(), 0);
    assert_eq!(
        stream.format(),
        Format { channels: 4, sample_rate: 44_100, data_type: SampleFormat::I16 }
    );
    assert!(output.samples().is_empty());
}

#[test]
fn a_stream_without_wishes_gets_the_defaults() {
    let (mut stream, mut output) = output::Builder::new(SampleFormat::I16, 0i16)
        .model(0u32)
        .render(Frames)
        .build::<Update, _>(Some(device(1)), |device: &Device, _: &Format| {
            assert_eq!(device.index, 1);
            Ok(StreamId(2))
        })
        .unwrap();
    // The default sample rate is 44 100, which the default format's family holds.
    assert_eq!(
        stream.format(),
        Format { channels: 2, sample_rate: 44_100, data_type: SampleFormat::I16 }
    );
    output.process(&mut stream, 1, Vec::new());
    assert_eq!(*stream.model(), DEFAULT_LEN_FRAMES as u32);
    assert_eq!(*stream.model(), 64);
    // One buffer of 64 frames of 2 channels serves 128 samples.
    output.process(&mut stream, 127, Vec::new());
    assert_eq!(*stream.model(), 64);
    output.process(&mut stream, 1, Vec::new());
    assert_eq!(*stream.model(), 128);
}

#[test]
fn finish_makes_the_stream_that_the_host_registered() {
    let format = Format { channels: 1, sample_rate: 8_000, data_type: SampleFormat::I16 };
    let builder = output::Builder::new(SampleFormat::I16, 0i16)
        .model(0u32)
        .render(Frames)
        .frames_per_buffer(5);
    let (mut stream, mut output) = builder.finish::<Update>(format, Ok(StreamId(6))).unwrap();
    assert_eq!(stream.id(), StreamId(6));
    assert_eq!(stream.format(), format);
    output.process(&mut stream, 6, Vec::new());
    assert_eq!(*stream.model(), 10);
    let builder = output::Builder::new(SampleFormat::I16, 0i16).model(0u32).render(Frames);
    let result = builder.finish::<Update>(format, Err(String::from("no permission")));
    assert_eq!(result.err(), Some(BuildError::Hardware(String::from("no permission"))));
}

#[test]
fn an_input_stream_is_built_in_the_same_way() {
    let result = input::Builder::new(SampleFormat::I16, 0i16)
        .model(0u32)
        .capture(Frames)
        .build::<Update, _>(None, |_: &Device, _: &Format| Ok(StreamId(1)));
    assert_eq!(result.err(), Some(BuildError::DefaultDevice));
    let result = input::Builder::new(SampleFormat::U16, 0i16)
        .model(0u32)
        .capture(Frames)
        .build::<Update, _>(Some(device(0)), |_: &Device, _: &Format| Ok(StreamId(1)));
    assert_eq!(result.err(), Some(BuildError::FormatUnsupported));
    let result = input::Builder::new(SampleFormat::I16, 0i16)
        .model(0u32)
        .capture(Frames)
        .build::<Update, _>(Some(device(0)), |_: &Device, _: &Format| Err(String::from("gone")));
    assert_eq!(result.err(), Some(BuildError::Hardware(String::from("gone"))));
    let (mut stream, mut input) = input::Builder::new(SampleFormat::I16, 0i16)
        .model(0u32)
        .capture(Frames)
        .sample_rate(96_000)
        .channels(4)
        .frames_per_buffer(3)
        .device(device(2))
        .build::<Update, _>(None, |device: &Device, format: &Format| {
            assert_eq!(device.index, 2);
            assert_eq!(format.sample_rate, 96_000);
            Ok(StreamId(12))
        })
        .unwrap();
    assert_eq!(stream.id(), StreamId(12));
    assert_eq!(
        stream.format(),
        Format { channels: 4, sample_rate: 96_000, data_type: SampleFormat::I16 }
    );
    input.process(&mut stream, &[0i16; 25], Vec::new());
    assert_eq!(*stream.model(), 6);
}

#[test]
fn the_default_render_function_changes_nothing() {
    let mut buffer = Buffer::filled(2, 2, 44_100, 0.25f32);
    default_render_fn(&mut (), &mut buffer);
    assert_eq!(buffer.as_slice(), &[0.25; 4][..]);
}

#[test]
fn the_output_is_filled_through_the_conversion() {
    let to_i16 = |sample: f32| (sample * 32_768.0).max(-32_768.0).min(32_767.0) as i16;
    let samples = vec![0.0f32, 0.5, -0.5, 1.0, -1.0];
    let mut output = vec![7i16; 5];
    fill_output(&mut output, &samples, &to_i16);
    assert_eq!(output, vec![0, 16_384, -16_384, 32_767, -32_768]);
    let mut longer = vec![7i16; 7];
    fill_output(&mut longer, &samples, &to_i16);
    assert_eq!(longer, vec![0, 16_384, -16_384, 32_767, -32_768, 7, 7]);
    let mut shorter = vec![7i16; 2];
    fill_output(&mut shorter, &samples, &to_i16);
    assert_eq!(shorter, vec![0, 16_384]);
    let to_u16 = |sample: f32| ((sample + 1.0) * 32_768.0).max(0.0).min(65_535.0) as u16;
    let mut unsigned = vec![0u16; 5];
    fill_output(&mut unsigned, &samples, &to_u16);
    assert_eq!(unsigned, vec![32_768, 49_152, 16_384, 65_535, 0]);
}

#[test]
fn the_input_is_converted_sample_by_sample() {
    let to_f32 = |sample: i16| sample as f32 / 32_768.0;
    let samples = input::convert_input(&[0i16, 16_384, -16_384, -32_768][..], &to_f32);
    assert_eq!(samples, vec![0.0, 0.5, -0.5, -1.0]);
    let none = input::convert_input(&[][..], &to_f32);
    assert!(none.is_empty());
}

#[test]
fn the_devices_come_one_by_one_in_their_order() {
    let mut devices = Devices::new(vec![device(4), device(2), device(9)]);
    assert_eq!(devices.len(), 3);
    assert_eq!(devices.next().map(|device| device.index), Some(4));
    assert_eq!(devices.next().map(|device| device.index), Some(2));
    assert_eq!(devices.len(), 1);
    assert_eq!(devices.next(), Some(device(9)));
    assert_eq!(devices.next(), None);
    assert_eq!(devices.next(), None);
    assert_eq!(devices.len(), 0);
}
