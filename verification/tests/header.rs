use hound::{SampleFormat, WavSpec, WavWriter};
use std::io::Cursor;
use wav_files_denoise::audio::{judge_header, validate_wav, AudioSpec};
use wav_files_denoise::paths::has_wav_suffix;

#[test]
fn test_validate_wav_valid() {
    let file_name = "valid.wav";
    let mut bytes: Vec<u8> = Vec::new();

    // Create a valid WAV file
    {
        let spec = WavSpec {
            channels: 1,
            sample_rate: 16000,
            bits_per_sample: 16,
            sample_format: SampleFormat::Int,
        };
        let mut writer = WavWriter::new(Cursor::new(&mut bytes), spec).unwrap();
        let mut sample_writer = writer.get_i16_writer(1);
        sample_writer.write_sample(0);
        sample_writer.flush().unwrap();
    }

    assert!(has_wav_suffix(file_name));
    assert!(validate_wav(&bytes).unwrap());
}

#[test]
fn test_validate_wav_invalid_sample_rate() {
    let file_name = "invalid_rate.wav";
    let mut bytes: Vec<u8> = Vec::new();

    // Create a WAV with wrong sample rate
    {
        let spec = WavSpec {
            channels: 1,
            sample_rate: 44100, // Invalid rate
            bits_per_sample: 16,
            sample_format: SampleFormat::Int,
        };
        let mut writer = WavWriter::new(Cursor::new(&mut bytes), spec).unwrap();
        let mut sample_writer = writer.get_i16_writer(1);
        sample_writer.write_sample(0);
        sample_writer.flush().unwrap();
    }

    assert!(has_wav_suffix(file_name));
    assert!(!validate_wav(&bytes).unwrap());
}

#[test]
fn test_validate_wav_invalid_channels() {
    let file_name = "invalid_channels.wav";
    let mut bytes: Vec<u8> = Vec::new();

    // Create a stereo WAV
    {
        let spec = WavSpec {
            channels: 2, // Invalid channels
            sample_rate: 16000,
            bits_per_sample: 16,
            sample_format: SampleFormat::Int,
        };
        let mut writer = WavWriter::new(Cursor::new(&mut bytes), spec).unwrap();
        let mut sample_writer = writer.get_i16_writer(2);
        sample_writer.write_sample(0);
        sample_writer.write_sample(0);
        sample_writer.flush().unwrap();
    }

    assert!(has_wav_suffix(file_name));
    assert!(!validate_wav(&bytes).unwrap());
}

#[test]
fn test_validate_wav_invalid_bits() {
    let file_name = "invalid_bits.wav";
    let mut bytes: Vec<u8> = Vec::new();

    // Create a 24-bit WAV
    {
        let spec = WavSpec {
            channels: 1,
            sample_rate: 16000,
            bits_per_sample: 24, // Invalid bits
            sample_format: SampleFormat::Int,
        };
        let mut writer = WavWriter::new(Cursor::new(&mut bytes), spec).unwrap();
        let sample: i32 = 0;
        writer.write_sample(sample).unwrap();
    }

    assert!(has_wav_suffix(file_name));
    assert!(!validate_wav(&bytes).unwrap());
}

fn wav_bytes(channels: u16, sample_rate: u32, bits_per_sample: u16) -> Vec<u8> {
    let mut bytes: Vec<u8> = Vec::new();
    {
        let spec = WavSpec { channels, sample_rate, bits_per_sample, sample_format: SampleFormat::Int };
        let mut writer = WavWriter::new(Cursor::new(&mut bytes), spec).unwrap();
        for _ in 0..channels {
            writer.write_sample(0i32).unwrap();
        }
    }
    bytes
}

#[test]
fn validate_wav_reads_the_header_it_is_given() {
    // The same call answers differently on different bytes.
    assert_eq!(validate_wav(&wav_bytes(1, 16000, 16)).unwrap(), true);
    assert_eq!(validate_wav(&wav_bytes(1, 8000, 16)).unwrap(), false);
    assert_eq!(validate_wav(&wav_bytes(1, 16000, 8)).unwrap(), false);
    assert_eq!(validate_wav(&wav_bytes(2, 44100, 24)).unwrap(), false);
}

#[test]
fn validate_wav_fails_on_empty_input() {
    assert!(validate_wav(&[]).is_err());
}

#[test]
fn validate_wav_fails_on_text() {
    let err = validate_wav(b"this is not a wave file at all").unwrap_err();
    assert!(matches!(err.cause, hound::Error::FormatError(_)));
}

#[test]
fn validate_wav_fails_on_truncated_header() {
    let bytes = wav_bytes(1, 16000, 16);
    assert!(validate_wav(&bytes[..20]).is_err());
}

#[test]
fn validate_wav_ignores_the_samples() {
    // The header is complete once the data chunk begins.
    let bytes = wav_bytes(1, 16000, 16);
    assert_eq!(bytes.len(), 46);
    assert!(validate_wav(&bytes[..44]).unwrap());
}

#[test]
fn accepted_is_exactly_mono_16k_16bit() {
    let target = AudioSpec { channels: 1, sample_rate: 16000, bits_per_sample: 16 };
    assert!(target.is_accepted());
    assert!(!AudioSpec { channels: 2, ..target }.is_accepted());
    assert!(!AudioSpec { channels: 0, ..target }.is_accepted());
    assert!(!AudioSpec { sample_rate: 44100, ..target }.is_accepted());
    assert!(!AudioSpec { sample_rate: 15999, ..target }.is_accepted());
    assert!(!AudioSpec { bits_per_sample: 24, ..target }.is_accepted());
    assert!(!AudioSpec { bits_per_sample: 8, ..target }.is_accepted());
}

#[test]
fn judge_header_keeps_the_readers_error() {
    let stereo = AudioSpec { channels: 2, sample_rate: 16000, bits_per_sample: 16 };
    assert_eq!(judge_header(Ok(stereo)).unwrap(), false);
    let mono = AudioSpec { channels: 1, sample_rate: 16000, bits_per_sample: 16 };
    assert_eq!(judge_header(Ok(mono)).unwrap(), true);
    let err = judge_header(Err(hound::Error::Unsupported)).unwrap_err();
    assert!(matches!(err.cause, hound::Error::Unsupported));
}
