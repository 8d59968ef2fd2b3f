use nannou::audio::stream::input::{CaptureFn, DefaultCaptureFn};
use nannou::audio::{Buffer, Receiver};

/// Keeps every buffer that it is given.
struct Recorder {
    frames: usize,
    channels: usize,
}

impl CaptureFn<Vec<Vec<i16>>, i16> for Recorder {
    fn capture(&self, model: &mut Vec<Vec<i16>>, buffer: &Buffer<i16>) {
        assert_eq!(buffer.len_frames(), self.frames);
        assert_eq!(buffer.channels(), self.channels);
        model.push(buffer.as_slice().to_vec());
    }
}

/// Delivers `samples` in runs of the given sizes and gives the buffers that
/// were captured and the number of samples left pending.
fn deliver_in_chunks(
    frames: usize,
    channels: usize,
    samples: &[i16],
    sizes: &[usize],
) -> (Vec<Vec<i16>>, usize) {
    let capture = Recorder { frames, channels };
    let mut receiver = Receiver::new(frames, channels, 0i16);
    let mut model = Vec::new();
    let mut at = 0;
    for &size in sizes {
        model = receiver.read_buffer(model, &capture, &samples[at..at + size], 44_100);
        at += size;
    }
    assert_eq!(at, samples.len());
    (model, receiver.num_pending())
}

#[test]
fn a_new_receiver_has_nothing_pending() {
    let receiver = Receiver::new(4, 2, 0i16);
    assert_eq!(receiver.num_frames(), 4);
    assert_eq!(receiver.num_channels(), 2);
    assert_eq!(receiver.num_pending(), 0);
}

#[test]
fn read_buffer_hands_on_every_buffer_that_is_full() {
    let capture = Recorder { frames: 2, channels: 2 };
    let mut receiver = Receiver::new(2, 2, 0i16);
    let model = receiver.read_buffer(Vec::new(), &capture, &[1, 2, 3, 4, 5, 6], 44_100);
    assert_eq!(model, vec![vec![1, 2, 3, 4]]);
    assert_eq!(receiver.num_pending(), 2);
    let model = receiver.read_buffer(model, &capture, &[7], 44_100);
    assert_eq!(model, vec![vec![1, 2, 3, 4]]);
    assert_eq!(receiver.num_pending(), 3);
    let model = receiver.read_buffer(model, &capture, &[8, 9, 10, 11, 12, 13], 44_100);
    assert_eq!(model, vec![vec![1, 2, 3, 4], vec![5, 6, 7, 8], vec![9, 10, 11, 12]]);
    assert_eq!(receiver.num_pending(), 1);
}

#[test]
fn nothing_delivered_changes_nothing() {
    let capture = Recorder { frames: 2, channels: 1 };
    let mut receiver = Receiver::new(2, 1, 0i16);
    let model = receiver.read_buffer(Vec::new(), &capture, &[5], 44_100);
    let model = receiver.read_buffer(model, &capture, &[], 44_100);
    assert!(model.is_empty());
    assert_eq!(receiver.num_pending(), 1);
}

#[test]
fn no_sample_is_dropped_or_comes_twice() {
    let samples: Vec<i16> = (100..137).collect();
    let sequences: [&[usize]; 7] = [
        &[37],
        &[1; 37],
        &[3, 5, 8, 1, 20],
        &[6, 6, 6, 6, 6, 6, 1],
        &[5, 7, 5, 7, 13],
        &[36, 1],
        &[0, 10, 0, 27, 0],
    ];
    for sizes in sequences {
        // Buffers of 3 frames of 2 channels hold 6 samples.
        let (buffers, pending) = deliver_in_chunks(3, 2, &samples, sizes);
        assert_eq!(buffers.len(), 6);
        for buffer in &buffers {
            assert_eq!(buffer.len(), 6);
        }
        assert_eq!(buffers.concat(), samples[..36].to_vec());
        assert_eq!(pending, 1);
    }
}

#[test]
fn the_sample_rate_reaches_the_capture_function() {
    struct Rate;
    impl CaptureFn<u32, i16> for Rate {
        fn capture(&self, model: &mut u32, buffer: &Buffer<i16>) {
            *model = buffer.sample_rate();
        }
    }
    let mut receiver = Receiver::new(1, 2, 0i16);
    let model = receiver.read_buffer(0, &Rate, &[1, 2], 96_000);
    assert_eq!(model, 96_000);
}

#[test]
fn the_default_capture_function_lets_the_audio_pass() {
    let mut receiver = Receiver::new(2, 2, 0.0f32);
    receiver.read_buffer((), &DefaultCaptureFn, &[0.1, 0.2, 0.3, 0.4, 0.5], 44_100);
    assert_eq!(receiver.num_pending(), 1);
}
