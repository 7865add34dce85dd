use wavtone::wav::WavStream;

fn le32(n: u32) -> Vec<u8> {
    n.to_le_bytes().to_vec()
}

fn expected_header(data_size: u32) -> Vec<u8> {
    let mut h = Vec::new();
    h.extend_from_slice(b"RIFF");
    h.extend(le32(data_size + 36));
    h.extend_from_slice(b"WAVE");
    h.extend_from_slice(b"fmt ");
    h.extend(le32(16));
    h.extend_from_slice(&[1, 0, 1, 0]);
    h.extend(le32(44100));
    h.extend(le32(88200));
    h.extend_from_slice(&[2, 0, 16, 0]);
    h.extend_from_slice(b"data");
    h.extend(le32(data_size));
    h
}

#[test]
fn empty_stream_is_a_bare_header() {
    let s = WavStream::new();
    assert_eq!(s.data_size(), 0);
    let bytes = s.finish();
    assert_eq!(bytes.len(), 44);
    assert_eq!(bytes, expected_header(0));
}

#[test]
fn samples_are_little_endian_twos_complement() {
    let mut s = WavStream::new();
    s.wave_abs(vec![1, -1, 256, -32768, 32767]);
    let bytes = s.finish();
    let mut expected = expected_header(10);
    expected.extend_from_slice(&[1, 0, 0xff, 0xff, 0, 1, 0, 0x80, 0xff, 0x7f]);
    assert_eq!(bytes, expected);
}

#[test]
fn silence_is_zero_samples() {
    let mut s = WavStream::new();
    s.silence(5);
    assert_eq!(s.data_size(), 10);
    let bytes = s.finish();
    assert_eq!(bytes.len(), 54);
    assert_eq!(&bytes[..44], &expected_header(10)[..]);
    assert!(bytes[44..].iter().all(|b| *b == 0));
}

#[test]
fn segments_come_out_in_order() {
    let mut s = WavStream::new();
    s.wave_abs(vec![7]);
    s.silence(0);
    s.silence(1);
    s.wave_abs(vec![-2, 3]);
    assert_eq!(s.data_size(), 8);
    let bytes = s.finish();
    assert_eq!(&bytes[44..], &[7, 0, 0, 0, 0xfe, 0xff, 3, 0]);
}

#[test]
fn data_size_is_two_bytes_per_sample() {
    let mut s = WavStream::new();
    s.wave_abs(vec![0; 3]);
    s.silence(88200);
    s.wave_abs(vec![]);
    assert_eq!(s.data_size(), 2 * (3 + 88200));
}

#[test]
fn size_fields() {
    let mut s = WavStream::new();
    s.silence(1000);
    let bytes = s.finish();
    assert_eq!(&bytes[4..8], &le32(2000 + 44 - 8)[..]);
    assert_eq!(&bytes[40..44], &le32(2000)[..]);
    assert_eq!(bytes.len(), 2044);
}

#[test]
fn same_segments_same_bytes() {
    let build = || {
        let mut s = WavStream::new();
        s.wave_abs(vec![100, -100, 5]);
        s.silence(3);
        s.finish()
    };
    assert_eq!(build(), build());
}

#[test]
fn format_fields() {
    let s = WavStream::new();
    assert_eq!(s.sample_rate(), 44100);
    assert_eq!(s.max_amplitude(), 32768);
}
