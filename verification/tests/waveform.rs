use audio_snip::waveform::{
    flat_waveform, loudest, samples_per_bin, waveform_args, StreamRead, WaveformBuilder, SAMPLE_RATE,
    WAVEFORM_BINS,
};

fn pcm(samples: &[i16]) -> Vec<u8> {
    samples.iter().flat_map(|s| s.to_le_bytes()).collect()
}

fn waveform(per_bin: usize, chunks: &[&[u8]]) -> Vec<u16> {
    let mut builder = WaveformBuilder::new(per_bin);
    for chunk in chunks {
        builder.feed(chunk);
    }
    builder.finish()
}

#[test]
fn audio_is_decoded_at_the_sample_rate() {
    let args = waveform_args("/v/a.mp4");
    assert_eq!(args, ["-i", "/v/a.mp4", "-vn", "-ac", "1", "-ar", "8000", "-f", "s16le", "pipe:1"]);
    assert_eq!(args[6], SAMPLE_RATE.to_string());
}

#[test]
fn bins_hold_the_loudest_sample() {
    let bytes = pcm(&[1, -5, 3, 2, i16::MIN, 7]);
    let peaks = waveform(2, &[&bytes]);
    assert_eq!(peaks.len(), WAVEFORM_BINS);
    assert_eq!(&peaks[..4], &[5, 3, 32768, 0]);
}

#[test]
fn last_bin_may_be_partial() {
    let bytes = pcm(&[1, 2, 3, -4]);
    let peaks = waveform(3, &[&bytes]);
    assert_eq!(&peaks[..3], &[3, 4, 0]);
}

#[test]
fn every_sample_counts() {
    for k in 0..WAVEFORM_BINS * 3 {
        let mut samples = vec![0i16; WAVEFORM_BINS * 3];
        samples[k] = -700;
        let peaks = waveform(3, &[&pcm(&samples)]);
        assert_eq!(peaks[k / 3], 700);
        assert_eq!(peaks.iter().filter(|&&p| p > 0).count(), 1);
    }
}

#[test]
fn chunk_sizes_do_not_matter() {
    let samples: Vec<i16> = (0..1000).map(|i| (i * 37 % 4001) as i16 - 2000).collect();
    let bytes = pcm(&samples);
    let whole = waveform(4, &[&bytes]);
    for size in [1usize, 2, 3, 5, 7, 64, 333] {
        let chunks: Vec<&[u8]> = bytes.chunks(size).collect();
        assert_eq!(waveform(4, &chunks), whole);
    }
    let expected: Vec<u16> =
        samples.chunks(4).take(WAVEFORM_BINS).map(|c| c.iter().map(|s| s.unsigned_abs()).max().unwrap()).collect();
    assert_eq!(whole, expected);
}

#[test]
fn stream_is_read_to_its_end() {
    let mut builder = WaveformBuilder::new(1);
    assert!(builder.take_in(StreamRead::Data(vec![2, 0, 5])).unwrap());
    assert!(builder.take_in(StreamRead::Data(vec![1])).unwrap());
    assert!(!builder.take_in(StreamRead::Data(Vec::new())).unwrap());
    assert_eq!(&builder.finish()[..3], &[2, 261, 0]);

    let mut broken = WaveformBuilder::new(1);
    let error = broken.take_in(StreamRead::Failed { cause: "gone".to_string() }).unwrap_err();
    assert_eq!(error.to_string(), "Failed to read FFmpeg output: gone");
}

#[test]
fn odd_last_byte_is_ignored() {
    assert_eq!(&waveform(1, &[&[1, 0, 9]])[..2], &[1, 0]);
}

#[test]
fn samples_beyond_the_last_bin_are_ignored() {
    let mut samples = vec![1i16; WAVEFORM_BINS];
    samples.push(9999);
    let peaks = waveform(1, &[&pcm(&samples)]);
    assert_eq!(peaks, vec![1u16; WAVEFORM_BINS]);
}

#[test]
fn empty_stream_is_silent() {
    assert_eq!(waveform(1, &[]), flat_waveform());
    assert_eq!(flat_waveform(), vec![0u16; 240]);
}

#[test]
fn bin_width_is_at_least_one_sample() {
    assert_eq!(samples_per_bin(0), 1);
    assert_eq!(samples_per_bin(239), 1);
    assert_eq!(samples_per_bin(479), 1);
    assert_eq!(samples_per_bin(480), 2);
    assert_eq!(samples_per_bin(8000 * 60), 2000);
}

#[test]
fn loudest_peak() {
    assert_eq!(loudest(&[]), 0);
    assert_eq!(loudest(&[0, 0]), 0);
    assert_eq!(loudest(&[3, 32768, 7]), 32768);
}
