use lingot::stream::{Decimator, TemporalBuffer};

#[test]
fn decimator_passthrough_when_oversampling_one() {
    let mut d = Decimator::new(1);
    assert_eq!(d.process(&[1.0, 2.0, 3.0]), vec![1.0, 2.0, 3.0]);
}

#[test]
fn decimator_downsamples_and_carries_phase() {
    // oversampling 4: one in four samples survives, and the phase carries
    // across block boundaries so the stream stays evenly sampled.
    let mut d = Decimator::new(4);
    let n_in = 400;
    let stream: Vec<f64> = (0..n_in).map(|i| i as f64).collect();

    let mut split = d.process(&stream[..150]);
    split.extend(d.process(&stream[150..]));

    let mut whole = Decimator::new(4);
    let single = whole.process(&stream);

    assert_eq!(split.len(), single.len());
    assert!((split.len() as i64 - n_in / 4).abs() <= 1);
}

#[test]
fn split_decimation_keeps_the_same_samples() {
    let stream: Vec<u32> = (0..103).collect();
    let mut whole = Decimator::new(5);
    let single = whole.process(&stream);
    assert_eq!(single, (0..103).step_by(5).collect::<Vec<u32>>());

    for cut in [0, 1, 4, 5, 6, 50, 102, 103] {
        let mut d = Decimator::new(5);
        let mut split = d.process(&stream[..cut]);
        split.extend(d.process(&stream[cut..]));
        assert_eq!(split, single, "cut at {cut}");
    }
}

#[test]
fn short_blocks_carry_the_phase() {
    let mut d = Decimator::new(3);
    assert_eq!(d.process(&[10, 11]), vec![10]);
    assert_eq!(d.process(&[12]), Vec::<i32>::new());
    assert_eq!(d.process(&[13, 14, 15, 16]), vec![13, 16]);
}

/// Size of the analysis window under the default configuration:
/// ceil(0.3 s * 44100 Hz / 21).
const DEFAULT_TEMPORAL_BUFFER_SIZE: usize = 630;

#[test]
fn push_block_keeps_most_recent_samples() {
    let mut buffer = TemporalBuffer::new(DEFAULT_TEMPORAL_BUFFER_SIZE, 0.0);
    let size = buffer.len();

    // fill with a ramp longer than the buffer
    let ramp: Vec<f64> = (0..size + 10).map(|i| i as f64).collect();
    buffer.push_block(&ramp);

    // buffer should hold the last `size` values of the ramp
    let expected_first = (size + 10 - size) as f64;
    assert_eq!(buffer.samples()[0], expected_first);
    assert_eq!(*buffer.samples().last().unwrap(), (size + 10 - 1) as f64);
}

#[test]
fn short_blocks_shift_the_window() {
    let mut buffer = TemporalBuffer::new(5, 0);
    buffer.push_block(&[1, 2]);
    assert_eq!(buffer.samples(), &[0, 0, 0, 1, 2]);
    buffer.push_block(&[]);
    assert_eq!(buffer.samples(), &[0, 0, 0, 1, 2]);
    buffer.push_block(&[3, 4, 5]);
    assert_eq!(buffer.samples(), &[1, 2, 3, 4, 5]);
    buffer.push_block(&[6, 7, 8, 9, 10, 11, 12]);
    assert_eq!(buffer.samples(), &[8, 9, 10, 11, 12]);
}

#[test]
fn pushing_blocks_in_turn_equals_pushing_them_at_once() {
    let mut a = TemporalBuffer::new(7, -1);
    let mut b = TemporalBuffer::new(7, -1);
    a.push_block(&[1, 2, 3]);
    a.push_block(&[4, 5]);
    b.push_block(&[1, 2, 3, 4, 5]);
    assert_eq!(a.samples(), b.samples());
}
