use std::io::Cursor;

use rustfft::num_complex::Complex;
use rustfft::FftPlanner;
use sound_shader::streamer::{asset_refill_len, SpectralBin, WavTextureMaker};
use sound_shader::wav::{SampleFormat, WavError};

fn hound_wav(channels: u16, sample_rate: u32, samples: &[i16]) -> Vec<u8> {
    let spec = hound::WavSpec {
        channels,
        sample_rate,
        bits_per_sample: 16,
        sample_format: hound::SampleFormat::Int,
    };
    let mut data = Vec::new();
    let mut w = hound::WavWriter::new(Cursor::new(&mut data), spec).unwrap();
    for &s in samples {
        w.write_sample(s).unwrap();
    }
    w.finalize().unwrap();
    data
}

#[test]
fn try_new_reads_spec() {
    let bytes = hound_wav(2, 44100, &[1, 2, 3, 4]);
    let maker = WavTextureMaker::try_new(bytes).unwrap();
    let spec = maker.spec();
    assert_eq!(spec.channels, 2);
    assert_eq!(spec.sample_rate, 44100);
    assert_eq!(spec.bits_per_sample, 16);
    assert_eq!(spec.sample_format, SampleFormat::Int);
    assert_eq!(maker.buffer_len(), 0);
}

#[test]
fn try_new_rejects_three_channels() {
    let bytes = hound_wav(3, 44100, &[1, 2, 3, 4, 5, 6]);
    match WavTextureMaker::try_new(bytes) {
        Err(WavError::UnsupportedChannels) => {}
        other => panic!("expected the channel-count rejection, got {:?}", other.map(|_| ())),
    }
}

#[test]
fn try_new_rejects_garbage() {
    assert!(matches!(
        WavTextureMaker::try_new(b"RIFFxxxxJUNK".to_vec()),
        Err(WavError::NotRiff)
    ));
    // A sound header whose chunks never reach a data chunk.
    assert!(matches!(
        WavTextureMaker::try_new(b"RIFFxxxxWAVE".to_vec()),
        Err(WavError::MissingData)
    ));
}

#[test]
fn reserve_appends_silence_past_the_source() {
    // The source has 4 samples; the asset is an infinite zero-padded tail.
    let bytes = hound_wav(1, 8000, &[100, -100, 300, -300]);
    let mut maker = WavTextureMaker::try_new(bytes).unwrap();
    maker.reserve(7);
    assert_eq!(maker.buffer_len(), 7);
    let points = maker.next_buffer(7);
    let got: Vec<i32> = points.iter().map(|p| p.left as i32).collect();
    assert_eq!(got, vec![100, -100, 300, -300, 0, 0, 0]);
    // End of file never errors: further pulls are pure silence.
    let points = maker.next_buffer(3);
    assert!(points.iter().all(|p| p.left == 0 && p.right == 0));
}

#[test]
fn next_buffer_interleaves_stereo_and_reserves_on_demand() {
    let bytes = hound_wav(2, 8000, &[10, -10, 20, -20, 30, -30]);
    let mut maker = WavTextureMaker::try_new(bytes).unwrap();
    // No explicit reserve: next_buffer tops the queue up itself.
    let points = maker.next_buffer(4);
    assert_eq!(points.len(), 4);
    let lr: Vec<(i32, i32)> = points.iter().map(|p| (p.left as i32, p.right as i32)).collect();
    assert_eq!(lr, vec![(10, -10), (20, -20), (30, -30), (0, 0)]);
    // Without any pushed analysis the spectral slots are silence.
    assert!(points.iter().all(|p| p.re == 0 && p.im == 0));
}

#[test]
fn spectral_pipeline_round_trip() {
    // One analysis window at 8 kHz mono is 800 samples per channel.
    let samples: Vec<i16> = (0..1000).map(|i| ((i * 37) % 4001 - 2000) as i16).collect();
    let bytes = hound_wav(1, 8000, &samples);
    let mut maker = WavTextureMaker::try_new(bytes).unwrap();
    assert_eq!(maker.window_len(), 800);
    maker.reserve(1000);

    // Exactly one whole window (800 of the 1000 queued frames) is due.
    let input = maker.spectral_input();
    assert_eq!(input.len(), 800);
    for (j, bin) in input.iter().enumerate() {
        assert_eq!(bin.re as i32, samples[j] as i32);
        assert_eq!(bin.im, 0);
    }

    // Run the forward transform the way the refill loop would: normalize,
    // transform, hand the bins back as bit patterns.
    let max = f32::powi(2.0, 15);
    let mut buf: Vec<Complex<f32>> = input
        .iter()
        .map(|b| Complex { re: b.re as i32 as f32 / max, im: b.im as i32 as f32 / max })
        .collect();
    let mut planner = FftPlanner::new();
    let fft = planner.plan_fft_forward(800);
    fft.process(&mut buf);
    let bins: Vec<SpectralBin> =
        buf.iter().map(|c| SpectralBin { re: c.re.to_bits(), im: c.im.to_bits() }).collect();
    maker.push_spectral(bins);

    // Nothing more is due until another whole window queues up.
    assert_eq!(maker.spectral_input().len(), 0);

    // The bins come out aligned one-to-one with the frames.
    let points = maker.next_buffer(800);
    let dc: f32 = samples[..800].iter().map(|&s| s as f32 / max).sum();
    assert!((f32::from_bits(points[0].re) - dc).abs() < 1e-3);
    assert_eq!(f32::from_bits(points[0].im), buf[0].im);
    assert_eq!(points[5].re, buf[5].re.to_bits());
    assert_eq!(points[5].im, buf[5].im.to_bits());
}

#[test]
fn spectral_due_counts_whole_windows_only() {
    let samples: Vec<i16> = vec![1; 2000];
    let bytes = hound_wav(1, 8000, &samples);
    let mut maker = WavTextureMaker::try_new(bytes).unwrap();
    maker.reserve(799);
    assert_eq!(maker.spectral_input().len(), 0);
    maker.reserve(1); // exactly one window
    assert_eq!(maker.spectral_input().len(), 800);
    maker.reserve(900); // 1700 queued: still just two whole windows
    assert_eq!(maker.spectral_input().len(), 1600);
}

#[test]
fn streamed_decode_matches_reference() {
    // Decode equivalence across calls: however the pulls are split, the
    // concatenated (l, r) lanes equal one straight reference decode of the
    // file, normalized, zero-padded past its end.
    let samples: Vec<i16> = (0..40).map(|i| (i * 1234 - 20000) as i16).collect();
    let bytes = hound_wav(2, 44100, &samples);

    let mut reference = hound::WavReader::new(Cursor::new(bytes.clone())).unwrap();
    let max = f32::powi(2.0, 15);
    let mut ref_values: Vec<f32> =
        reference.samples::<i16>().map(|v| v.unwrap() as f32 / max).collect();
    ref_values.resize(60, 0.0); // 30 frames pulled, the last 10 past the end

    let mut maker = WavTextureMaker::try_new(bytes).unwrap();
    let mut streamed: Vec<f32> = Vec::new();
    for len in [3usize, 1, 7, 11, 8] {
        for p in maker.next_buffer(len) {
            streamed.push(p.left as i32 as f32 / max);
            streamed.push(p.right as i32 as f32 / max);
        }
    }
    assert_eq!(streamed.len(), ref_values.len());
    for (k, (got, want)) in streamed.iter().zip(&ref_values).enumerate() {
        assert!((got - want).abs() < 0.01, "sample {}: {} vs {}", k, got, want);
    }
}

#[test]
fn refill_watermark_tops_up_to_three_seconds() {
    assert_eq!(asset_refill_len(0, 8000), 24000);
    assert_eq!(asset_refill_len(15999, 8000), 8001);
    assert_eq!(asset_refill_len(16000, 8000), 0);
    assert_eq!(asset_refill_len(30000, 8000), 0);
}
