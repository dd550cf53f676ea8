use audio_capture_core::catalog::{
    alsa_pulse_plugin_installed, build_input_device_id, enumerate_from_snapshots, is_loopback_source,
    is_supported, list_input_devices, EnumeratedDevice, HostSnapshot,
};
use audio_capture_core::errors::CaptureError;
use audio_capture_core::select::{
    select_after_exhaustive, select_input_device, SelectionStep,
};

fn host(label: &str, default_name: Option<&str>, others: &[&str]) -> HostSnapshot {
    HostSnapshot {
        label: label.to_string(),
        default_name: default_name.map(|s| s.to_string()),
        other_names: others.iter().map(|s| s.to_string()).collect(),
    }
}

fn device(id: &str, name: &str, is_default: bool, is_loopback: bool) -> EnumeratedDevice {
    EnumeratedDevice {
        id: id.to_string(),
        name: name.to_string(),
        raw_name: name.to_string(),
        is_default,
        is_loopback,
        host: "Alsa".to_string(),
        host_pos: 0,
        slot: 0,
    }
}

#[test]
fn device_id_is_slugged_and_prefixed() {
    assert_eq!(
        build_input_device_id("Alsa", 0, "Built-in Mic"),
        "input_alsa_0_built_in_mic"
    );
    assert_eq!(
        build_input_device_id("Pulse", 3, "  Weird--Name!!"),
        "input_pulse_3_weird_name"
    );
    assert_eq!(build_input_device_id("Alsa", 1, "___"), "input_alsa_1_");
}

#[test]
fn loopback_classification() {
    assert!(is_loopback_source("Speakers Monitor"));
    assert!(is_loopback_source("Monitor of Built-in Audio"));
    assert!(is_loopback_source("LOOPBACK device"));
    assert!(is_loopback_source("Stereo Mix (Realtek)"));
    assert!(is_loopback_source("What U Hear"));
    assert!(!is_loopback_source("Built-in Mic"));
    assert!(!is_loopback_source("pulse"));
}

#[test]
fn enumeration_dedups_and_orders_default_first() {
    let hosts = vec![host(
        "Alsa",
        Some("Built-in Mic"),
        &["Built-in Mic", "USB Mic", "USB Mic", "Speakers Monitor"],
    )];
    let devices = enumerate_from_snapshots(&hosts, true);
    let names: Vec<&str> = devices.iter().map(|d| d.raw_name.as_str()).collect();
    assert_eq!(names, vec!["Built-in Mic", "USB Mic", "Speakers Monitor"]);
    assert!(devices[0].is_default);
    assert!(!devices[1].is_default);
    assert!(devices[2].is_loopback);
    assert_eq!(devices[0].name, "Built-in Mic [Alsa]");
    assert_eq!(devices[0].id, "input_alsa_0_built_in_mic");
    assert_eq!(devices[1].id, "input_alsa_2_usb_mic");
}

#[test]
fn enumeration_default_only_skips_other_inputs() {
    let hosts = vec![host("Alsa", Some("Built-in Mic"), &["USB Mic"])];
    let devices = enumerate_from_snapshots(&hosts, false);
    assert_eq!(devices.len(), 1);
    assert_eq!(devices[0].raw_name, "Built-in Mic");
}

#[test]
fn ids_are_stable_and_unique_across_passes() {
    let hosts = vec![
        host("Alsa", Some("Built-in Mic"), &["USB Mic", "Speakers Monitor"]),
        host("Pulse", Some("pulse"), &["RDPSource"]),
    ];
    let first = enumerate_from_snapshots(&hosts, true);
    let second = enumerate_from_snapshots(&hosts, true);
    let ids1: Vec<&str> = first.iter().map(|d| d.id.as_str()).collect();
    let ids2: Vec<&str> = second.iter().map(|d| d.id.as_str()).collect();
    assert_eq!(ids1, ids2);
    for (i, a) in ids1.iter().enumerate() {
        for (j, b) in ids1.iter().enumerate() {
            if i != j {
                assert_ne!(a, b);
            }
        }
    }
}

#[test]
fn listing_maps_catalog_fields() {
    let hosts = vec![host("Alsa", Some("Speakers Monitor"), &[])];
    let list = list_input_devices(&hosts, false, false, true, &vec![]).unwrap();
    assert_eq!(list.len(), 1);
    assert_eq!(list[0].availability, "available");
    assert_eq!(list[0].permission_state, "unknown");
    assert_eq!(list[0].host.as_deref(), Some("Alsa"));
    assert_eq!(list[0].diagnostics.as_deref(), Some("loopback_source"));
}

#[test]
fn empty_catalog_reports_remediation() {
    let warnings = vec!["host Alsa unavailable: busy".to_string()];
    let err = list_input_devices(&vec![], false, true, false, &warnings).unwrap_err();
    match err {
        CaptureError::NoDevicesFound(m) => {
            assert!(m.starts_with("No Linux input devices found across CPAL hosts."));
            assert!(m.contains("ALSA Pulse plugin is missing."));
            assert!(m.ends_with(" Details: host Alsa unavailable: busy"));
        }
        other => panic!("unexpected error {:?}", other),
    }
}

#[test]
fn support_follows_catalog() {
    assert!(!is_supported(&vec![], true));
    assert!(is_supported(&vec![host("Alsa", Some("Mic"), &[])], false));
    // whatever the disk says, the plugin probe answers without failing
    let _ = alsa_pulse_plugin_installed();
}

#[test]
fn explicit_unknown_id_fails_without_fallback() {
    let catalog = vec![device("input_alsa_0_mic", "Mic [Alsa]", true, false)];
    let step = select_input_device(&catalog, &Some("input_alsa_9_gone".to_string()), false, true);
    match step {
        SelectionStep::Failed(CaptureError::DeviceNotFound(m)) => {
            assert_eq!(
                m,
                "Selected input device 'input_alsa_9_gone' is not available. Refresh the device list and try again."
            );
        }
        _ => panic!("expected DeviceNotFound"),
    }
}

#[test]
fn explicit_id_matches_exactly() {
    let catalog = vec![
        device("input_alsa_0_mic", "Mic [Alsa]", true, false),
        device("input_alsa_1_usb", "USB [Alsa]", false, false),
    ];
    match select_input_device(&catalog, &Some("input_alsa_1_usb".to_string()), true, false) {
        SelectionStep::Chosen(s) => {
            assert_eq!(s.index, 1);
            assert!(!s.from_expanded);
            assert_eq!(s.name, "USB [Alsa]");
        }
        _ => panic!("expected a choice"),
    }
}

#[test]
fn plain_context_picks_the_default_device() {
    let catalog = vec![
        device("input_alsa_0_built_in_mic", "Built-in Mic [Alsa]", true, false),
        device(
            "input_alsa_1_speakers_monitor",
            "Speakers Monitor [Alsa]",
            false,
            true,
        ),
    ];
    match select_input_device(&catalog, &None, false, true) {
        SelectionStep::Chosen(s) => {
            assert_eq!(s.index, 0);
            assert_eq!(s.name, "Built-in Mic [Alsa]");
            assert!(!s.is_loopback);
        }
        _ => panic!("expected the default device"),
    }
}

#[test]
fn virtualized_context_prefers_audio_server_source() {
    let catalog = vec![
        device(
            "input_alsa_0_built_in_mic_loopback",
            "Built-in Mic (loopback) [Alsa]",
            true,
            true,
        ),
        device("input_alsa_1_pulse", "pulse [Alsa]", false, false),
    ];
    match select_input_device(&catalog, &None, true, true) {
        SelectionStep::Chosen(s) => {
            assert_eq!(s.index, 1);
            assert_eq!(s.name, "pulse [Alsa]");
        }
        _ => panic!("expected the pulse device"),
    }
}

#[test]
fn virtualized_context_asks_for_exhaustive_pass() {
    let catalog = vec![device(
        "input_alsa_0_monitor",
        "Speakers Monitor [Alsa]",
        true,
        true,
    )];
    match select_input_device(&catalog, &None, true, false) {
        SelectionStep::NeedExhaustive => {}
        _ => panic!("expected NeedExhaustive"),
    }
    let expanded = vec![
        device("input_alsa_0_monitor", "Speakers Monitor [Alsa]", true, true),
        device("input_alsa_1_rdp", "RDPSource [Alsa]", false, false),
    ];
    match select_after_exhaustive(&catalog, &expanded) {
        SelectionStep::Chosen(s) => {
            assert_eq!(s.index, 1);
            assert!(s.from_expanded);
            assert_eq!(s.name, "RDPSource [Alsa]");
        }
        _ => panic!("expected the expanded choice"),
    }
}

#[test]
fn fallback_order_loopback_then_first_then_error() {
    let only_loopback = vec![device("input_alsa_0_mon", "Monitor [Alsa]", false, true)];
    match select_input_device(&only_loopback, &None, false, true) {
        SelectionStep::Chosen(s) => assert_eq!(s.index, 0),
        _ => panic!("expected the loopback fallback"),
    }
    match select_input_device(&vec![], &None, false, true) {
        SelectionStep::Failed(CaptureError::NoDevicesFound(m)) => {
            assert!(m.starts_with("No Linux input devices found."));
        }
        _ => panic!("expected NoDevicesFound"),
    }
}
