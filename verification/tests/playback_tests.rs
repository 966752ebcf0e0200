use sound_shader::playback::{producer_refill_len, PlaybackBuffer};

fn bits(v: &[f32]) -> Vec<u32> {
    v.iter().map(|x| x.to_bits()).collect()
}

#[test]
fn pull_returns_exactly_what_was_queued() {
    let mut buf = PlaybackBuffer::new();
    buf.append(bits(&[0.1, 0.2, 0.3, 0.4]));
    let (got, shortfall) = buf.pull(4);
    assert_eq!(shortfall, 0);
    assert_eq!(got, bits(&[0.1, 0.2, 0.3, 0.4]));
    assert_eq!(buf.len(), 0);
}

#[test]
fn underrun_zero_pads_and_never_blocks() {
    // A pull of `len` against a buffer holding fewer samples returns exactly
    // `len`: the queued values first, then zeros.
    let mut buf = PlaybackBuffer::new();
    buf.append(bits(&[0.5, -0.5, 0.25]));
    let (got, shortfall) = buf.pull(6);
    assert_eq!(shortfall, 3);
    assert_eq!(got.len(), 6);
    assert_eq!(&got[..3], &bits(&[0.5, -0.5, 0.25])[..]);
    assert!(got[3..].iter().all(|&w| f32::from_bits(w) == 0.0));
    assert_eq!(buf.len(), 0);
}

#[test]
fn pull_keeps_fifo_order_across_appends() {
    let mut buf = PlaybackBuffer::new();
    buf.append(vec![1, 2, 3]);
    buf.append(vec![4, 5]);
    let (a, _) = buf.pull(2);
    buf.append(vec![6]);
    let (b, _) = buf.pull(4);
    assert_eq!(a, vec![1, 2]);
    assert_eq!(b, vec![3, 4, 5, 6]);
}

#[test]
fn split_pulls_equal_one_pull() {
    // A consumer pulling in two bites sees what one pull of the sum sees,
    // zero-filling included; a record sink mirroring the releases therefore
    // matches a single batch pull of the same total length.
    let produced: Vec<u32> = (0..7u32).collect();

    let mut live = PlaybackBuffer::new();
    live.append(produced.clone());
    let mut record: Vec<u32> = Vec::new();
    for len in [5, 2, 3] {
        let (chunk, _) = live.pull(len);
        record.extend(&chunk);
    }

    let mut batch = PlaybackBuffer::new();
    batch.append(produced);
    let (whole, shortfall) = batch.pull(10);
    assert_eq!(shortfall, 3);
    assert_eq!(record, whole);
}

#[test]
fn producer_watermark_renders_one_second_when_low() {
    // One second of audio is 88200 interleaved samples at 44.1 kHz.
    assert_eq!(producer_refill_len(0, 44100), 88200);
    assert_eq!(producer_refill_len(88199, 44100), 88200);
    assert_eq!(producer_refill_len(88200, 44100), 0);
    assert_eq!(producer_refill_len(100000, 44100), 0);
}
