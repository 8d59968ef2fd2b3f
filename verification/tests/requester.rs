use nannou::audio::stream::output::{DefaultRenderFn, RenderFn};
use nannou::audio::{Buffer, Requester};

/// What a `Counter` keeps: the next value to write, and how often it was
/// called.
#[derive(Clone, Copy, Debug, PartialEq)]
struct Count {
    next: u32,
    calls: u32,
}

/// Writes 0, 1, 2, ... into the buffers that it is given, going on from one
/// buffer to the next, and checks the form of every buffer.
struct Counter {
    frames: usize,
    channels: usize,
}

impl RenderFn<Count, u32> for Counter {
    fn render(&self, model: &mut Count, buffer: &mut Buffer<u32>) {
        assert_eq!(buffer.len_frames(), self.frames);
        assert_eq!(buffer.channels(), self.channels);
        assert_eq!(buffer.len(), self.frames * self.channels);
        for i in 0..buffer.len() {
            assert_eq!(buffer.get(i), 0);
            buffer.set(i, model.next);
            model.next += 1;
        }
        model.calls += 1;
    }
}

fn start() -> Count {
    Count { next: 0, calls: 0 }
}

/// Fills buffers of the given sizes one after the other and gives all samples
/// in a row, with what the requester and the model are like at the end.
fn fill_in_chunks(frames: usize, channels: usize, sizes: &[usize]) -> (Vec<u32>, Count, usize) {
    let render = Counter { frames, channels };
    let mut requester = Requester::new(frames, channels, 0u32);
    let mut model = start();
    let mut all = Vec::new();
    for &size in sizes {
        let mut output = vec![u32::MAX; size];
        model = requester.fill_buffer(model, &render, &mut output, 44_100);
        assert_eq!(output.len(), size);
        all.extend(output);
    }
    (all, model, requester.num_pending())
}

#[test]
fn a_new_requester_has_nothing_pending() {
    let requester = Requester::new(4, 2, 0.0f32);
    assert_eq!(requester.num_frames(), 4);
    assert_eq!(requester.num_channels(), 2);
    assert_eq!(requester.num_pending(), 0);
    assert_eq!(requester.equilibrium(), 0.0);
}

#[test]
fn fill_buffer_hands_out_the_rendered_samples_in_order() {
    let render = Counter { frames: 4, channels: 1 };
    let mut requester = Requester::new(4, 1, 0u32);
    let mut output = vec![99u32; 6];
    let model = requester.fill_buffer(start(), &render, &mut output, 44_100);
    assert_eq!(output, vec![0, 1, 2, 3, 4, 5]);
    assert_eq!(model, Count { next: 8, calls: 2 });
    assert_eq!(requester.num_pending(), 2);
    let mut output = vec![99u32; 3];
    let model = requester.fill_buffer(model, &render, &mut output, 44_100);
    assert_eq!(output, vec![6, 7, 8]);
    assert_eq!(model, Count { next: 12, calls: 3 });
    assert_eq!(requester.num_pending(), 3);
}

#[test]
fn what_is_pending_is_handed_out_before_anything_is_rendered() {
    let render = Counter { frames: 8, channels: 1 };
    let mut requester = Requester::new(8, 1, 0u32);
    let mut output = vec![0u32; 3];
    let model = requester.fill_buffer(start(), &render, &mut output, 44_100);
    assert_eq!(model.calls, 1);
    assert_eq!(requester.num_pending(), 5);
    let mut output = vec![0u32; 5];
    let model = requester.fill_buffer(model, &render, &mut output, 44_100);
    assert_eq!(output, vec![3, 4, 5, 6, 7]);
    assert_eq!(model.calls, 1);
    assert_eq!(requester.num_pending(), 0);
}

#[test]
fn an_empty_hardware_buffer_asks_for_nothing() {
    let render = Counter { frames: 4, channels: 2 };
    let mut requester = Requester::new(4, 2, 0u32);
    let mut output: Vec<u32> = Vec::new();
    let model = requester.fill_buffer(start(), &render, &mut output, 44_100);
    assert!(output.is_empty());
    assert_eq!(model, start());
    assert_eq!(requester.num_pending(), 0);
}

#[test]
fn a_hardware_buffer_of_the_streams_own_length_takes_one_render() {
    let (all, model, pending) = fill_in_chunks(4, 2, &[8, 8, 8]);
    assert_eq!(all, (0..24).collect::<Vec<u32>>());
    assert_eq!(model.calls, 3);
    assert_eq!(pending, 0);
}

#[test]
fn the_chunk_sizes_of_the_hardware_do_not_show() {
    let sequences: [&[usize]; 7] = [
        &[37],
        &[1; 37],
        &[3, 5, 8, 1, 20],
        &[8, 8, 8, 8, 5],
        &[7, 9, 7, 9, 5],
        &[36, 1],
        &[0, 10, 0, 27, 0],
    ];
    for sizes in sequences {
        let (all, model, pending) = fill_in_chunks(4, 2, sizes);
        assert_eq!(sizes.iter().sum::<usize>(), 37);
        assert_eq!(all, (0..37).collect::<Vec<u32>>());
        // 37 samples begin 5 buffers of 8 samples.
        assert_eq!(model, Count { next: 40, calls: 5 });
        assert_eq!(pending, 3);
    }
}

#[test]
fn the_render_function_is_called_once_for_every_buffer_begun() {
    let lens: [(usize, u32); 6] = [(0, 0), (1, 1), (5, 1), (6, 1), (7, 2), (13, 3)];
    for (total, calls) in lens {
        let (all, model, pending) = fill_in_chunks(3, 2, &[total]);
        assert_eq!(all.len(), total);
        assert_eq!(model.calls, calls);
        assert_eq!(model.next as usize, calls as usize * 6);
        assert_eq!(pending, calls as usize * 6 - total);
    }
}

#[test]
fn the_sample_rate_reaches_the_render_function() {
    struct Rate;
    impl RenderFn<u32, u32> for Rate {
        fn render(&self, model: &mut u32, buffer: &mut Buffer<u32>) {
            *model = buffer.sample_rate();
        }
    }
    let mut requester = Requester::new(2, 1, 0u32);
    let mut output = vec![0u32; 1];
    let model = requester.fill_buffer(0, &Rate, &mut output, 22_050);
    assert_eq!(model, 22_050);
}

#[test]
fn the_default_render_function_renders_silence() {
    let mut requester = Requester::new(4, 2, 0.5f32);
    let mut output = vec![1.0f32; 11];
    requester.fill_buffer((), &DefaultRenderFn, &mut output, 44_100);
    assert_eq!(output, vec![0.5f32; 11]);
    assert_eq!(requester.num_pending(), 5);
}
