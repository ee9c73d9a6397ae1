use scrcpy_studio::doctor::{adb_install_action, finding, physical_key, run_doctor, scrcpy_install_action};
use scrcpy_studio::models::DeviceInfo;
use scrcpy_studio::runtime::HostOs;

fn phone(serial: &str, state: &str, model: Option<&str>) -> DeviceInfo {
    DeviceInfo {
        serial: serial.into(),
        state: state.into(),
        model: model.map(|m| m.to_string()),
        product: model.map(|_| "p".to_string()),
        device: model.map(|_| "d".to_string()),
        connection_kind: "usb".into(),
    }
}

#[test]
fn missing_tools_get_install_advice() {
    let items = run_doctor(None, None, None, HostOs::Linux);
    assert_eq!(items.len(), 2);
    assert_eq!(items[0].level, "error");
    assert_eq!(items[0].title, "ADB missing");
    assert_eq!(items[0].action.as_deref(), Some(adb_install_action(HostOs::Linux)));
    assert_eq!(items[1].title, "scrcpy missing");
    assert_eq!(items[1].action.as_deref(), Some(scrcpy_install_action(HostOs::Linux)));
}

#[test]
fn each_phone_is_reported_once() {
    let devices = vec![
        phone("ABC", "device", Some("Pixel")),
        phone("10.0.0.2:5555", "device", Some("Pixel")),
        phone("XYZ", "unauthorized", None),
        phone("OFF", "offline", None),
        phone("REC", "recovery", None),
    ];
    let items = run_doctor(
        Some("/usr/bin/adb".into()),
        Some("/usr/bin/scrcpy".into()),
        Some(Ok(devices)),
        HostOs::Windows,
    );
    assert_eq!(items.len(), 6);
    assert_eq!(items[0].detail, "Using /usr/bin/adb");
    assert_eq!(items[2].title, "Device authorized");
    assert_eq!(items[2].detail, "Pixel is ready for control.");
    assert_eq!(items[3].title, "USB debugging approval needed");
    assert_eq!(items[4].title, "Device offline");
    assert_eq!(items[5].detail, "REC reports state 'recovery'.");
}

#[test]
fn empty_lists_and_adb_errors() {
    let none = run_doctor(Some("adb".into()), None, Some(Ok(Vec::new())), HostOs::Other);
    assert_eq!(none[2].title, "No phone detected");
    let failed = run_doctor(Some("adb".into()), None, Some(Err("boom".into())), HostOs::Other);
    assert_eq!(failed[2].title, "ADB check failed");
    assert_eq!(failed[2].detail, "boom");
    assert_eq!(failed[1].action.as_deref(), Some("Install official scrcpy and reopen SCRCPY Studio."));
}

#[test]
fn physical_keys_and_findings() {
    assert_eq!(physical_key(&phone("ABC", "device", Some("M"))), "p|M|d");
    assert_eq!(physical_key(&phone("ABC", "device", None)), "ABC");
    let f = finding("ok", "T", "D".to_string(), None);
    assert_eq!(f.level, "ok");
    assert!(f.action.is_none());
}
