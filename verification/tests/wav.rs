use nelfie::wav::{
    apply_scaled_samples, parse_wav_layout, pcm16_samples, read_u16_le, read_u32_le, write_u16_le, write_u32_le,
    WavError,
};

fn wav(channels: u16, samples: &[i16]) -> Vec<u8> {
    let data_len = (samples.len() * 2) as u32;
    let mut v = Vec::new();
    v.extend_from_slice(b"RIFF");
    v.extend_from_slice(&(36 + data_len).to_le_bytes());
    v.extend_from_slice(b"WAVE");
    v.extend_from_slice(b"fmt ");
    v.extend_from_slice(&16u32.to_le_bytes());
    v.extend_from_slice(&1u16.to_le_bytes());
    v.extend_from_slice(&channels.to_le_bytes());
    v.extend_from_slice(&24000u32.to_le_bytes());
    v.extend_from_slice(&(24000u32 * 2 * channels as u32).to_le_bytes());
    v.extend_from_slice(&(2 * channels).to_le_bytes());
    v.extend_from_slice(&16u16.to_le_bytes());
    v.extend_from_slice(b"data");
    v.extend_from_slice(&data_len.to_le_bytes());
    for s in samples {
        v.extend_from_slice(&s.to_le_bytes());
    }
    v
}

#[test]
fn little_endian_helpers_round_trip() {
    assert_eq!(read_u16_le(&[0x34, 0x12]), 0x1234);
    assert_eq!(read_u32_le(&[0x78, 0x56, 0x34, 0x12]), 0x12345678);
    let mut b = [0u8; 2];
    write_u16_le(&mut b, 0xBEEF);
    assert_eq!(b, [0xEF, 0xBE]);
    let mut c = [0u8; 4];
    write_u32_le(&mut c, 0xDEADBEEF);
    assert_eq!(c, [0xEF, 0xBE, 0xAD, 0xDE]);
}

#[test]
fn mono_layout_is_found() {
    let w = wav(1, &[100, -100]);
    let l = parse_wav_layout(&w).unwrap();
    assert_eq!(l.fmt_start, 12);
    assert_eq!(l.data_start, 36);
    assert_eq!(l.data_size, 4);
    assert_eq!(l.channels, 1);
    assert_eq!(l.sample_rate, 24000);
    assert_eq!(pcm16_samples(&w, l), vec![100, -100]);
}

#[test]
fn bad_files_are_refused() {
    assert_eq!(parse_wav_layout(&vec![0u8; 10]), Err(WavError::TooShort));
    let mut w = wav(1, &[1, 2]);
    w[0] = b'X';
    assert_eq!(parse_wav_layout(&w), Err(WavError::NotRiffWave));
    let w3 = wav(3, &[1, 2, 3]);
    let e = parse_wav_layout(&w3).unwrap_err();
    assert_eq!(e, WavError::UnsupportedChannels(3));
    assert_eq!(e.message(), "pan processing supports only mono/stereo WAV (got 3 ch)");
    let mut w4 = wav(1, &[1, 2]);
    w4[20] = 3;
    assert_eq!(parse_wav_layout(&w4), Err(WavError::NotPcm16));
    let mut w5 = wav(1, &[1, 2]);
    w5[40] = 200;
    assert_eq!(parse_wav_layout(&w5), Err(WavError::ChunkPastEnd));
    assert_eq!(WavError::FmtNotFound.message(), "WAV fmt chunk not found");
}

#[test]
fn mono_becomes_stereo_with_scaled_samples() {
    let w = wav(1, &[1000, -2000]);
    let l = parse_wav_layout(&w).unwrap();
    let out = apply_scaled_samples(w, l, &vec![500, 1000, -1000, -2000]).unwrap();
    let l2 = parse_wav_layout(&out).unwrap();
    assert_eq!(l2.channels, 2);
    assert_eq!(l2.data_size, 8);
    assert_eq!(pcm16_samples(&out, l2), vec![500, 1000, -1000, -2000]);
    assert_eq!(read_u32_le(&out[4..8]) as usize, out.len() - 8);
    assert_eq!(read_u32_le(&out[28..32]), 96000);
    assert_eq!(read_u16_le(&out[32..34]), 4);
}

#[test]
fn stereo_samples_are_replaced_in_place() {
    let w = wav(2, &[10, 20, 30, 40]);
    let l = parse_wav_layout(&w).unwrap();
    assert_eq!(pcm16_samples(&w, l), vec![10, 20, 30, 40]);
    let out = apply_scaled_samples(w.clone(), l, &vec![5, 20, 15, 40]).unwrap();
    assert_eq!(out.len(), w.len());
    assert_eq!(&out[..44], &w[..44]);
    assert_eq!(pcm16_samples(&out, l), vec![5, 20, 15, 40]);
}
