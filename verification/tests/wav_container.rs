use audio_capture_core::errors::CaptureError;
use audio_capture_core::wav::{samples_to_wav, wav_to_samples};
use std::io::Cursor;

#[test]
fn empty_samples_give_valid_44_byte_container() {
    let bytes = samples_to_wav(&vec![], 44100, 2).unwrap();
    assert_eq!(bytes.len(), 44);
    // An independent reader accepts it and finds a zero-length data section.
    let reader = hound::WavReader::new(Cursor::new(bytes.clone())).unwrap();
    assert_eq!(reader.spec().channels, 2);
    assert_eq!(reader.spec().sample_rate, 44100);
    assert_eq!(reader.spec().bits_per_sample, 16);
    assert_eq!(reader.spec().sample_format, hound::SampleFormat::Int);
    assert_eq!(reader.len(), 0);
}

#[test]
fn header_bytes_exact() {
    let bytes = samples_to_wav(&vec![1, -2], 48000, 1).unwrap();
    assert_eq!(&bytes[0..4], b"RIFF");
    assert_eq!(&bytes[8..12], b"WAVE");
    assert_eq!(&bytes[12..16], b"fmt ");
    assert_eq!(&bytes[36..40], b"data");
    // chunk sizes: data = 4 bytes, riff = 40
    assert_eq!(u32::from_le_bytes(bytes[4..8].try_into().unwrap()), 40);
    assert_eq!(u32::from_le_bytes(bytes[40..44].try_into().unwrap()), 4);
    // format fields
    assert_eq!(u16::from_le_bytes(bytes[20..22].try_into().unwrap()), 1);
    assert_eq!(u16::from_le_bytes(bytes[22..24].try_into().unwrap()), 1);
    assert_eq!(u32::from_le_bytes(bytes[24..28].try_into().unwrap()), 48000);
    assert_eq!(u32::from_le_bytes(bytes[28..32].try_into().unwrap()), 96000);
    assert_eq!(u16::from_le_bytes(bytes[32..34].try_into().unwrap()), 2);
    assert_eq!(u16::from_le_bytes(bytes[34..36].try_into().unwrap()), 16);
    // sample data, little endian two's complement
    assert_eq!(&bytes[44..48], &[1, 0, 254, 255]);
}

#[test]
fn integer_round_trip() {
    let samples: Vec<i16> = vec![0, 1000, -1000, 32767, -32767, 123, -1];
    let bytes = samples_to_wav(&samples, 22050, 1).unwrap();
    let (back, rate, channels) = wav_to_samples(&bytes).unwrap();
    assert_eq!(back, samples);
    assert_eq!(rate, 22050);
    assert_eq!(channels, 1);
}

#[test]
fn hound_agrees_with_decoder() {
    let samples: Vec<i16> = vec![5, -6, 7, -8];
    let bytes = samples_to_wav(&samples, 8000, 2).unwrap();
    let mut reader = hound::WavReader::new(Cursor::new(bytes)).unwrap();
    let read: Vec<i16> = reader.samples::<i16>().map(|s| s.unwrap()).collect();
    assert_eq!(read, samples);
}

#[test]
fn float_round_trip_within_one_quantization_step() {
    let originals: Vec<f32> = (0..200)
        .map(|k| ((k as f32) * 0.31).sin())
        .chain([1.0, -1.0, 0.9999, -0.9999, 0.0])
        .collect();
    let quantized: Vec<i16> = originals
        .iter()
        .map(|s| (s.clamp(-1.0, 1.0) * 32767.0) as i16)
        .collect();
    let bytes = samples_to_wav(&quantized, 16000, 1).unwrap();
    let (back, _, _) = wav_to_samples(&bytes).unwrap();
    let step = 1.0f64 / 32767.0;
    for (orig, q) in originals.iter().zip(back.iter()) {
        let decoded = *q as f64 / 32767.0;
        assert!(
            ((*orig as f64) - decoded).abs() <= step + 1e-9,
            "sample {} decoded as {}",
            orig,
            decoded
        );
    }
}

#[test]
fn invalid_formats_are_encode_errors() {
    assert!(matches!(
        samples_to_wav(&vec![1], 44100, 0),
        Err(CaptureError::EncodeError(_))
    ));
    assert!(matches!(
        samples_to_wav(&vec![1], 0, 2),
        Err(CaptureError::EncodeError(_))
    ));
}

#[test]
fn decoder_rejects_torn_containers() {
    let bytes = samples_to_wav(&vec![1, 2, 3], 44100, 1).unwrap();
    assert!(wav_to_samples(&bytes[..40]).is_none());
    let mut broken = bytes.clone();
    broken[0] = b'X';
    assert!(wav_to_samples(&broken).is_none());
    let mut truncated = bytes;
    truncated.pop();
    assert!(wav_to_samples(&truncated).is_none());
}
