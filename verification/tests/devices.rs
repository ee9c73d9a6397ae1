use scrcpy_studio::devices::{
    find_device, getprop, has_h265_encoder, inspect_device_check, is_wireless_serial,
    parse_devices, parse_physical_size, parse_u32,
};

#[test]
fn parses_usb_and_wireless_devices() {
    let raw = "List of devices attached\nABC123 device product:foo model:Pixel_9 device:tokay transport_id:1\n192.168.1.7:5555 unauthorized product:bar model:POCO_F1 device:beryllium\n";
    let devices = parse_devices(raw);
    assert_eq!(devices.len(), 2);
    assert_eq!(devices[0].connection_kind, "usb");
    assert_eq!(devices[1].connection_kind, "wireless");
    assert_eq!(devices[1].state, "unauthorized");
}

#[test]
fn device_fields_are_read() {
    let raw = "List of devices attached\nABC123 device product:foo model:Pixel_9 device:tokay\n* daemon started\n";
    let devices = parse_devices(raw);
    assert_eq!(devices.len(), 1);
    assert_eq!(devices[0].serial, "ABC123");
    assert_eq!(devices[0].model.as_deref(), Some("Pixel_9"));
    assert_eq!(devices[0].product.as_deref(), Some("foo"));
    assert_eq!(devices[0].device.as_deref(), Some("tokay"));
    assert_eq!(find_device(&devices, "ABC123"), Some(0));
    assert_eq!(find_device(&devices, "nope"), None);
}

#[test]
fn wireless_serials_are_recognised() {
    assert!(is_wireless_serial("10.0.0.2:5555"));
    assert!(is_wireless_serial("adb-R58N-abc._adb-tls-connect._tcp"));
    assert!(!is_wireless_serial("R58N123"));
}

#[test]
fn numbers_sizes_and_properties() {
    assert_eq!(parse_u32(" 34 "), 34);
    assert_eq!(parse_u32("abc"), 0);
    assert_eq!(parse_physical_size("Physical size: 1080x2400"), (Some(1080), Some(2400)));
    assert_eq!(getprop(Some(" Pixel 9 \n")), "Pixel 9");
    assert_eq!(getprop(None), "");
    assert!(has_h265_encoder(Some("--video-codec=h265 --encoder=c2.qti.hevc.encoder")));
    assert!(!has_h265_encoder(Some("--video-codec=h264")));
    assert!(!has_h265_encoder(None));
}

#[test]
fn inspecting_needs_an_authorized_phone() {
    let raw = "List of devices attached\nAAA unauthorized\nBBB device\n";
    let devices = parse_devices(raw);
    assert_eq!(
        inspect_device_check(&devices, "AAA"),
        Err("Device state is 'unauthorized'. Authorize or reconnect the phone first.".to_string())
    );
    assert_eq!(inspect_device_check(&devices, "BBB"), Ok(()));
    assert_eq!(
        inspect_device_check(&devices, "CCC"),
        Err("Selected device is no longer connected.".to_string())
    );
}
