use audio_limiter::catalog::{
    get_device_idx_by_name, get_device_name, list_devices, DeviceEntry, DeviceInfo, Direction,
    NO_DEVICE_SELECTED, UNKNOWN_DEVICE,
};
use audio_limiter::format::FormatRange;

fn stereo() -> FormatRange {
    FormatRange { channels: 2, min_rate: 44100, max_rate: 48000, float_samples: true }
}

fn device(name: Option<&str>, captures: bool, plays: bool) -> DeviceInfo {
    DeviceInfo {
        name: name.map(|n| n.to_string()),
        inputs: if captures { vec![stereo()] } else { vec![] },
        outputs: if plays { vec![stereo()] } else { vec![] },
    }
}

fn some_devices() -> Vec<DeviceInfo> {
    vec![
        device(Some("Microphone"), true, false),
        device(None, true, true),
        device(Some("Speakers"), false, true),
        device(Some("Headset"), true, true),
        device(Some("Speakers"), true, true),
        device(Some("Dummy"), false, false),
    ]
}

#[test]
fn shown_names_are_fixed() {
    assert_eq!(NO_DEVICE_SELECTED, "No Device Selected");
    assert_eq!(UNKNOWN_DEVICE, "Unknown Device");
}

#[test]
fn name_of_no_selection() {
    assert_eq!(get_device_name(&some_devices(), None), "No Device Selected");
    assert_eq!(get_device_name(&[], None), "No Device Selected");
}

#[test]
fn name_of_selected_device() {
    let devices = some_devices();
    assert_eq!(get_device_name(&devices, Some(0)), "Microphone");
    assert_eq!(get_device_name(&devices, Some(3)), "Headset");
}

#[test]
fn name_of_device_without_name() {
    assert_eq!(get_device_name(&some_devices(), Some(1)), "Unknown Device");
    assert_eq!(some_devices()[1].display_name(), "Unknown Device");
}

#[test]
fn lookup_finds_first_device_of_that_name() {
    let devices = some_devices();
    assert_eq!(get_device_idx_by_name(&devices, "Microphone"), Some(0));
    assert_eq!(get_device_idx_by_name(&devices, "Speakers"), Some(2));
    assert_eq!(get_device_idx_by_name(&devices, "Headset"), Some(3));
    assert_eq!(get_device_idx_by_name(&devices, "Dummy"), Some(5));
}

#[test]
fn lookup_of_absent_name_finds_nothing() {
    let devices = some_devices();
    assert_eq!(get_device_idx_by_name(&devices, "Turntable"), None);
    assert_eq!(get_device_idx_by_name(&devices, ""), None);
    assert_eq!(get_device_idx_by_name(&devices, "microphone"), None);
    assert_eq!(get_device_idx_by_name(&[], "Microphone"), None);
}

#[test]
fn lookup_never_finds_a_device_without_name() {
    let devices = some_devices();
    assert_eq!(get_device_idx_by_name(&devices, "Unknown Device"), None);
    assert_eq!(get_device_idx_by_name(&devices, "No Device Selected"), None);
}

#[test]
fn stored_name_leads_back_to_the_device() {
    let devices = some_devices();
    for i in [0usize, 2, 3, 5] {
        let stored = get_device_name(&devices, Some(i));
        assert_eq!(get_device_idx_by_name(&devices, &stored), Some(i));
    }
    let stored = get_device_name(&devices, Some(4));
    let found = get_device_idx_by_name(&devices, &stored).unwrap();
    assert_eq!(found, 2);
    assert_eq!(get_device_name(&devices, Some(found)), stored);
}

#[test]
fn stored_name_survives_a_changed_enumeration() {
    let stored = get_device_name(&some_devices(), Some(3));
    let later = vec![device(Some("Headset"), true, true), device(Some("Microphone"), true, false)];
    assert_eq!(get_device_idx_by_name(&later, &stored), Some(0));
    let without = vec![device(Some("Microphone"), true, false)];
    assert_eq!(get_device_idx_by_name(&without, &stored), None);
}

#[test]
fn direction_follows_the_supported_formats() {
    assert_eq!(device(Some("a"), true, false).direction(), Some(Direction::Input));
    assert_eq!(device(Some("a"), false, true).direction(), Some(Direction::Output));
    assert_eq!(device(Some("a"), true, true).direction(), Some(Direction::Both));
    assert_eq!(device(Some("a"), false, false).direction(), None);
}

#[test]
fn list_holds_each_usable_device_in_order() {
    let entry = |name: &str, direction: Direction| DeviceEntry { name: name.to_string(), direction };
    assert_eq!(
        list_devices(&some_devices()),
        vec![
            entry("Microphone", Direction::Input),
            entry("Unknown Device", Direction::Both),
            entry("Speakers", Direction::Output),
            entry("Headset", Direction::Both),
            entry("Speakers", Direction::Both),
        ]
    );
}

#[test]
fn list_of_no_devices_is_empty() {
    assert_eq!(list_devices(&[]), vec![]);
    assert_eq!(list_devices(&[device(Some("Dummy"), false, false)]), vec![]);
}
