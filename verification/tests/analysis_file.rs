use lightshow::analysis_file::{decode_analysis, decode_words, encode_analysis, encode_words};

#[test]
fn encode_analysis_lays_out_little_endian_words() {
    let tempo = 120.0f32.to_bits();
    let bytes = encode_analysis(tempo, &[1, -1, 44100]);
    assert_eq!(
        bytes,
        vec![0x00, 0x00, 0xf0, 0x42, 1, 0, 0, 0, 0xff, 0xff, 0xff, 0xff, 0x44, 0xac, 0, 0]
    );
}

#[test]
fn encode_analysis_of_empty_rhythm_holds_only_the_tempo() {
    assert_eq!(encode_analysis(0x0102_0304, &[]), vec![4, 3, 2, 1]);
}

#[test]
fn decode_analysis_reads_tempo_and_rhythm() {
    let bytes = vec![0x00, 0x00, 0xf0, 0x42, 1, 0, 0, 0, 0xff, 0xff, 0xff, 0xff];
    let (tempo, rhythm) = decode_analysis(&bytes);
    assert_eq!(f32::from_bits(tempo), 120.0);
    assert_eq!(rhythm, vec![1, -1]);
}

#[test]
fn decode_analysis_ignores_a_partial_last_word() {
    let bytes = vec![0, 0, 0, 0, 7, 0, 0, 0, 9, 9, 9];
    let (tempo, rhythm) = decode_analysis(&bytes);
    assert_eq!(tempo, 0);
    assert_eq!(rhythm, vec![7]);
}

#[test]
fn decode_analysis_of_tempo_only() {
    let (tempo, rhythm) = decode_analysis(&[0x78, 0x56, 0x34, 0x12]);
    assert_eq!(tempo, 0x1234_5678);
    assert!(rhythm.is_empty());
}

#[test]
fn analysis_file_roundtrip() {
    let rhythm = vec![4101, i32::MAX, i32::MIN, 0, -7];
    let tempo = 97.5f32.to_bits();
    let (t, r) = decode_analysis(&encode_analysis(tempo, &rhythm));
    assert_eq!(t, tempo);
    assert_eq!(r, rhythm);
}

#[test]
fn analysis_file_reencode_drops_partial_word() {
    let bytes = vec![1, 2, 3, 4, 5, 6, 7, 8, 9];
    let (t, r) = decode_analysis(&bytes);
    assert_eq!(encode_analysis(t, &r), bytes[..8].to_vec());
}

#[test]
fn words_roundtrip() {
    let words = vec![0u32, 1, 0xdead_beef, u32::MAX];
    let bytes = encode_words(&words);
    assert_eq!(bytes.len(), 16);
    assert_eq!(&bytes[8..12], &[0xef, 0xbe, 0xad, 0xde]);
    assert_eq!(decode_words(&bytes, 4), words);
}

#[test]
fn decode_words_reads_only_the_words_asked_for() {
    let bytes = vec![1, 0, 0, 0, 2, 0, 0, 0, 3];
    assert_eq!(decode_words(&bytes, 1), vec![1]);
    assert_eq!(decode_words(&bytes, 0), Vec::<u32>::new());
}
