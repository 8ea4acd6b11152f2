//! The decode-compress-normalize pipeline on concrete inputs.

use looper::decoder::{compress_samples, decode_wav, fixed_from_i16, DecodeError, DecodedSamples};
use looper::svg_map::IconName;
use looper::ui::{Help, WaveformModel, MAX_NUMBER_OF_SAMPLES_SHOWN};
use looper::utils::{calculate_spacing, scale_value, scale_values_to_unit_range};

fn wav_bytes(spec: hound::WavSpec, int_samples: Option<&[i16]>, float_samples: Option<&[f32]>) -> Vec<u8> {
    let mut cursor = std::io::Cursor::new(Vec::new());
    {
        let mut writer = hound::WavWriter::new(&mut cursor, spec).unwrap();
        if let Some(samples) = int_samples {
            for &s in samples {
                writer.write_sample(s).unwrap();
            }
        }
        if let Some(samples) = float_samples {
            for &s in samples {
                writer.write_sample(s).unwrap();
            }
        }
        writer.finalize().unwrap();
    }
    cursor.into_inner()
}

fn int_spec() -> hound::WavSpec {
    hound::WavSpec {
        channels: 1,
        sample_rate: 44100,
        bits_per_sample: 16,
        sample_format: hound::SampleFormat::Int,
    }
}

fn float_spec() -> hound::WavSpec {
    hound::WavSpec {
        channels: 1,
        sample_rate: 44100,
        bits_per_sample: 32,
        sample_format: hound::SampleFormat::Float,
    }
}

#[test]
fn compress_returns_target_length() {
    let samples: Vec<i64> = (1..=10).collect();
    let r = compress_samples(&samples, 4);
    assert_eq!(r.len(), 4);
    assert_eq!(r, vec![2, 4, 7, 9]);
}

#[test]
fn compress_empty_input_gives_zero_bins() {
    let samples: Vec<i64> = Vec::new();
    let r = compress_samples(&samples, 3);
    assert_eq!(r, vec![0, 0, 0]);
}

#[test]
fn compress_target_exceeds_input() {
    let samples: Vec<i64> = vec![10, 20];
    let r = compress_samples(&samples, 5);
    assert_eq!(r, vec![10, 10, 15, 20, 20]);
}

#[test]
fn compress_zero_target_gives_empty() {
    let samples: Vec<i64> = vec![1, 2, 3];
    let r = compress_samples(&samples, 0);
    assert!(r.is_empty());
}

#[test]
fn compress_negative_mean_rounds_down() {
    let samples: Vec<i64> = vec![-3, -4];
    let r = compress_samples(&samples, 1);
    assert_eq!(r, vec![-4]);
}

#[test]
fn normalize_maps_min_to_zero_and_max_to_unit() {
    let r = scale_values_to_unit_range(vec![0, 5_000_000, 10_000_000]);
    assert_eq!(r, vec![0, 500_000, 1_000_000]);
}

#[test]
fn normalize_constant_returns_empty() {
    let r = scale_values_to_unit_range(vec![3_000_000, 3_000_000, 3_000_000, 3_000_000]);
    assert!(r.is_empty());
}

#[test]
fn normalize_empty_returns_empty() {
    let r = scale_values_to_unit_range(Vec::new());
    assert!(r.is_empty());
}

#[test]
fn normalize_stays_in_unit_range() {
    let r = scale_values_to_unit_range(vec![-7_000_000, 1, 4_000_000, 9_999_999]);
    assert_eq!(r.len(), 4);
    for &v in &r {
        assert!((0..=1_000_000).contains(&v));
    }
    assert_eq!(r[0], 0);
    assert_eq!(r[3], 1_000_000);
}

#[test]
fn scale_maps_midpoint() {
    assert_eq!(scale_value(5, (0, 10), (0, 100)), 50);
}

#[test]
fn scale_clamps_below_range() {
    assert_eq!(scale_value(-5, (0, 10), (0, 100)), 0);
}

#[test]
fn scale_clamps_above_range() {
    assert_eq!(scale_value(15, (0, 10), (0, 100)), 100);
}

#[test]
fn scale_supports_descending_output_range() {
    assert_eq!(scale_value(5, (0, 10), (100, 0)), 50);
    assert_eq!(scale_value(-5, (0, 10), (100, 0)), 100);
    assert_eq!(scale_value(15, (0, 10), (100, 0)), 0);
}

#[test]
fn scale_fixed_point_pixels_to_seconds() {
    assert_eq!(
        scale_value(400_000_000, (0, 800_000_000), (0, 4_000_000)),
        2_000_000
    );
}

#[test]
fn spacing_divides_leftover_width() {
    assert_eq!(calculate_spacing(959_000_000, 160, 5_000_000), 1_000_000);
}

#[test]
fn spacing_zero_for_single_sample() {
    assert_eq!(calculate_spacing(800_000_000, 1, 5_000_000), 0);
    assert_eq!(calculate_spacing(800_000_000, 0, 5_000_000), 0);
}

#[test]
fn decode_silent_second_compresses_to_empty_display() {
    let samples: Vec<i16> = vec![0; 44100];
    let bytes = wav_bytes(int_spec(), Some(&samples), None);
    let decoded = decode_wav(&bytes).unwrap();
    let fixed = match decoded {
        DecodedSamples::I16(v) => {
            assert_eq!(v.len(), 44100);
            assert!(v.iter().all(|&s| s == 0));
            fixed_from_i16(&v)
        }
        DecodedSamples::F32Bits(_) => panic!("integer container decoded as float"),
    };
    let compressed = compress_samples(&fixed, 160);
    assert_eq!(compressed.len(), 160);
    assert!(compressed.iter().all(|&b| b == 0));
    let normalized = scale_values_to_unit_range(compressed);
    assert!(normalized.is_empty());
}

#[test]
fn decode_int_wav_roundtrip() {
    let samples: Vec<i16> = vec![-2, 3, 32767, -32768];
    let bytes = wav_bytes(int_spec(), Some(&samples), None);
    match decode_wav(&bytes).unwrap() {
        DecodedSamples::I16(v) => assert_eq!(v, samples),
        DecodedSamples::F32Bits(_) => panic!("integer container decoded as float"),
    }
}

#[test]
fn decode_float_wav_yields_bit_patterns() {
    let samples: Vec<f32> = vec![0.5, -0.25, 1.0];
    let bytes = wav_bytes(float_spec(), None, Some(&samples));
    match decode_wav(&bytes).unwrap() {
        DecodedSamples::F32Bits(w) => {
            let expected: Vec<u32> = samples.iter().map(|s| s.to_bits()).collect();
            assert_eq!(w, expected);
        }
        DecodedSamples::I16(_) => panic!("float container decoded as integer"),
    }
}

#[test]
fn decode_malformed_header_fails() {
    let r = decode_wav(b"definitely not a wav container");
    assert!(matches!(r, Err(DecodeError::Malformed)));
}

#[test]
fn decode_truncated_samples_fails() {
    let samples: Vec<i16> = vec![1, 2, 3, 4];
    let mut bytes = wav_bytes(int_spec(), Some(&samples), None);
    bytes.truncate(bytes.len() - 3);
    let r = decode_wav(&bytes);
    assert!(matches!(r, Err(DecodeError::BadSample)));
}

#[test]
fn fixed_from_i16_widens_by_unit() {
    let r = fixed_from_i16(&vec![-2, 3, 0]);
    assert_eq!(r, vec![-2_000_000, 3_000_000, 0]);
}

#[test]
fn waveform_model_runs_pipeline() {
    let samples: Vec<i64> = vec![0, 1_000_000, 2_000_000, 3_000_000];
    let model = WaveformModel::new("track.wav".to_string(), Ok(samples));
    assert_eq!(model.path, "track.wav");
    let bins = model.samples.expect("pipeline output");
    assert_eq!(bins.len(), MAX_NUMBER_OF_SAMPLES_SHOWN);
    assert!(bins.iter().all(|&b| (0..=1_000_000).contains(&b)));
}

#[test]
fn waveform_model_falls_back_to_placeholder() {
    let model = WaveformModel::new("broken.wav".to_string(), Err(DecodeError::Malformed));
    assert_eq!(model.samples, Some(vec![0]));
}

#[test]
fn waveform_model_update_replaces_samples() {
    let mut model = WaveformModel::new("a.wav".to_string(), Err(DecodeError::Malformed));
    model.update_samples("b.wav".to_string(), Ok(vec![0, 2_000_000]));
    assert_eq!(model.path, "b.wav");
    let bins = model.samples.expect("pipeline output");
    assert_eq!(bins.len(), MAX_NUMBER_OF_SAMPLES_SHOWN);
}

#[test]
fn help_toggles_legend() {
    let mut help = Help {
        text: String::new(),
        is_shown: false,
    };
    help.show_help();
    assert!(help.is_shown);
    assert!(help.text.contains("loop position"));
    help.show_help();
    assert!(!help.is_shown);
    assert!(help.text.is_empty());
}

#[test]
fn icon_path_names_question_mark_asset() {
    assert_eq!(IconName::QuestionMark.path(), "assets/svg/Q.svg");
}
