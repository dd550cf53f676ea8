use audio_capture_core::envinfo::{
    is_truthy_flag, is_wsl_environment, should_enumerate_all_inputs, EnvSnapshot,
};
use audio_capture_core::hosts::prioritized_host_labels;
use audio_capture_core::probe::{build_probe_report, clamp_probe_duration, ProbeStats};

fn env(wsl: bool, pulse: bool, jack: Option<&str>, all: Option<&str>) -> EnvSnapshot {
    EnvSnapshot {
        wsl_distro_set: wsl,
        wsl_interop_set: false,
        pulse_server_set: pulse,
        jack_flag: jack.map(|s| s.to_string()),
        enumerate_all_flag: all.map(|s| s.to_string()),
    }
}

#[test]
fn probe_duration_is_clamped_to_fixed_window() {
    assert_eq!(clamp_probe_duration(50), 300);
    assert_eq!(clamp_probe_duration(999999), 5000);
    assert_eq!(clamp_probe_duration(300), 300);
    assert_eq!(clamp_probe_duration(1234), 1234);
    assert_eq!(clamp_probe_duration(5000), 5000);
}

#[test]
fn probe_stats_accumulate_exactly() {
    let mut stats = ProbeStats::new();
    stats.accumulate(&vec![3, -4]);
    stats.accumulate(&vec![]);
    stats.accumulate(&vec![-5]);
    assert_eq!(stats.count, 3);
    assert_eq!(stats.peak, 5);
    assert_eq!(stats.sum_squares, 9 + 16 + 25);
}

#[test]
fn zero_sample_probe_is_a_report_not_an_error() {
    let stats = ProbeStats::new();
    let report = build_probe_report(&stats, "Mic [Alsa]".to_string(), 300, false);
    assert_eq!(report.device_name, "Mic [Alsa]");
    assert_eq!(report.sample_count, 0);
    assert_eq!(report.peak, 0);
    assert_eq!(report.rms_permille, 0);
    assert_eq!(report.level_permille, 0);
    assert!(!report.has_signal);
    assert_eq!(
        report.message,
        "No samples captured during probe. Source may be inactive or blocked."
    );
}

#[test]
fn loud_probe_detects_signal() {
    let mut stats = ProbeStats::new();
    stats.accumulate(&vec![16000; 100]);
    let report = build_probe_report(&stats, "Mic".to_string(), 1000, false);
    assert!(report.has_signal);
    assert_eq!(report.message, "Signal detected. This source should work for capture.");
    assert!(report.level_permille <= 1000);
    assert!(report.rms_permille > 0);
}

#[test]
fn peak_floor_boundary_is_exact() {
    let mut quiet = ProbeStats::new();
    // peak 327 and RMS diluted far below its floor: no signal
    let mut batch = vec![0i16; 100000];
    batch[0] = 327;
    quiet.accumulate(&batch);
    let report = build_probe_report(&quiet, "q".to_string(), 300, false);
    assert!(!report.has_signal);

    let mut just_loud = ProbeStats::new();
    let mut batch2 = vec![0i16; 100000];
    batch2[0] = 328;
    just_loud.accumulate(&batch2);
    let report2 = build_probe_report(&just_loud, "q".to_string(), 300, false);
    assert!(report2.has_signal);
}

#[test]
fn silence_message_depends_on_environment() {
    let mut stats = ProbeStats::new();
    stats.accumulate(&vec![1; 1000]);
    let wsl = build_probe_report(&stats, "m".to_string(), 300, true);
    assert!(wsl.message.contains("On WSL2"));
    let mut stats2 = ProbeStats::new();
    stats2.accumulate(&vec![1; 1000]);
    let plain = build_probe_report(&stats2, "m".to_string(), 300, false);
    assert_eq!(
        plain.message,
        "Source is near silence. Verify the source is active and not muted."
    );
}

#[test]
fn truthy_flags_are_trimmed_and_case_folded() {
    assert!(is_truthy_flag("1"));
    assert!(is_truthy_flag(" TRUE "));
    assert!(is_truthy_flag("Yes"));
    assert!(is_truthy_flag("on"));
    assert!(!is_truthy_flag("0"));
    assert!(!is_truthy_flag(""));
    assert!(!is_truthy_flag("no"));
    assert!(!is_truthy_flag("yes please"));
}

#[test]
fn wsl_markers_and_enumeration_default() {
    assert!(is_wsl_environment(&env(true, false, None, None)));
    assert!(!is_wsl_environment(&env(false, true, None, None)));
    // exhaustive enumeration is the default only outside WSL/pulse setups
    assert!(should_enumerate_all_inputs(&env(false, false, None, None)));
    assert!(!should_enumerate_all_inputs(&env(true, false, None, None)));
    assert!(!should_enumerate_all_inputs(&env(false, true, None, None)));
    assert!(should_enumerate_all_inputs(&env(true, true, None, Some("yes"))));
    assert!(!should_enumerate_all_inputs(&env(false, false, None, Some("off"))));
}

#[test]
fn jack_host_is_excluded_unless_opted_in() {
    let labels = vec!["Jack".to_string(), "Alsa".to_string()];
    let plain = prioritized_host_labels(&labels, &env(false, false, None, None));
    assert_eq!(plain, vec!["Alsa".to_string()]);
    let opted = prioritized_host_labels(&labels, &env(false, false, Some("1"), None));
    assert_eq!(opted, vec!["Jack".to_string(), "Alsa".to_string()]);
}

#[test]
fn server_context_puts_direct_hardware_first() {
    let labels = vec![
        "CoreAudio".to_string(),
        "Pulse".to_string(),
        "Alsa".to_string(),
    ];
    let ordered = prioritized_host_labels(&labels, &env(false, true, None, None));
    assert_eq!(
        ordered,
        vec!["Alsa".to_string(), "Pulse".to_string(), "CoreAudio".to_string()]
    );
}

#[test]
fn all_filtered_falls_back_to_the_original_list() {
    let labels = vec!["Jack".to_string()];
    let fallback = prioritized_host_labels(&labels, &env(true, false, None, None));
    assert_eq!(fallback, vec!["Jack".to_string()]);
}
