use audio_capture_core::capture::{get_recent_levels, AudioCaptureState};
use audio_capture_core::errors::CaptureError;
use audio_capture_core::wav::wav_to_samples;
use base64::Engine as _;

#[test]
fn stopping_with_no_samples_is_empty_capture() {
    let state = AudioCaptureState::new();
    match state.finish_capture() {
        Err(CaptureError::EmptyCapture(m)) => {
            assert!(m.starts_with("No audio samples captured."));
        }
        other => panic!("expected EmptyCapture, got {:?}", other.map(|_| ())),
    }
}

#[test]
fn near_silent_capture_is_rejected_with_remediation() {
    let mut state = AudioCaptureState::new();
    state.append_batch(&vec![10; 1000]);
    match state.finish_capture() {
        Err(CaptureError::NearSilence(m)) => {
            assert!(m.starts_with("Captured audio is near silence."));
            assert!(m.contains("'pulse' or 'RDPSource'"));
        }
        _ => panic!("expected NearSilence"),
    }
}

#[test]
fn recorded_stream_error_surfaces_on_stop() {
    let mut state = AudioCaptureState::new();
    state.append_batch(&vec![8000; 64]);
    state.record_error("Audio input stream error on 'Mic': device gone".to_string());
    match state.finish_capture() {
        Err(CaptureError::RuntimeStreamError(m)) => {
            assert_eq!(m, "Audio input stream error on 'Mic': device gone");
        }
        _ => panic!("expected RuntimeStreamError"),
    }
}

#[test]
fn successful_capture_encodes_the_samples() {
    let mut state = AudioCaptureState::new();
    state.set_format(16000, 1);
    let batch: Vec<i16> = (0..256).map(|k| if k % 2 == 0 { 9000 } else { -9000 }).collect();
    state.append_batch(&batch);
    let text = state.finish_capture().unwrap();
    // The transport encoding decodes back to the exact container.
    let bytes = base64::engine::general_purpose::STANDARD
        .decode(text.as_bytes())
        .unwrap();
    let (samples, rate, channels) = wav_to_samples(&bytes).unwrap();
    assert_eq!(samples, batch);
    assert_eq!(rate, 16000);
    assert_eq!(channels, 1);
}

#[test]
fn reset_clears_buffers_and_error_but_keeps_format() {
    let mut state = AudioCaptureState::new();
    state.set_format(48000, 2);
    state.append_batch(&vec![1000; 32]);
    state.record_error("boom".to_string());
    state.reset();
    assert_eq!(get_recent_levels(&state).len(), 0);
    match state.finish_capture() {
        Err(CaptureError::EmptyCapture(_)) => {}
        _ => panic!("error should have been cleared by reset"),
    }
}

#[test]
fn error_slot_is_sticky_until_reset() {
    let mut state = AudioCaptureState::new();
    state.record_error("first".to_string());
    state.append_batch(&vec![9000; 16]);
    match state.finish_capture() {
        Err(CaptureError::RuntimeStreamError(m)) => assert_eq!(m, "first"),
        _ => panic!("expected the recorded error"),
    }
}

#[test]
fn each_batch_pushes_one_level() {
    let mut state = AudioCaptureState::new();
    for _ in 0..5 {
        state.append_batch(&vec![16000; 10]);
    }
    let levels = get_recent_levels(&state);
    assert_eq!(levels.len(), 5);
    for lvl in levels {
        assert!(lvl <= 1000);
        assert!(lvl > 0);
    }
}

#[test]
fn stop_signal_is_single_use() {
    let mut state = AudioCaptureState::new();
    assert!(!state.take_stop());
    state.arm_stop();
    assert!(state.take_stop());
    assert!(!state.take_stop());
}
