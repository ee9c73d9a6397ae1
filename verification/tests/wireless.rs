use scrcpy_studio::models::DeviceInfo;
use scrcpy_studio::wireless::{
    adb_getprop, connect_device_args, connect_failed, connect_outcome, connected_model,
    device_wifi_ip, disconnect_args, forget_address, forget_result, hardware_serial,
    list_remembered_wireless, pair_device_args, pair_message, pairing_code, parse_route_ipv4,
    parse_wlan_ipv4, remember_address, safe_address, same_physical_phone, sibling_transport,
    switch_to_usb, tcpip_args, usb_wireless_check, wireless_address, wireless_enabled,
    WirelessStore,
};

fn device(serial: &str, state: &str, kind: &str, model: Option<&str>) -> DeviceInfo {
    DeviceInfo {
        serial: serial.into(),
        state: state.into(),
        model: model.map(|m| m.to_string()),
        product: model.map(|_| "ossi".to_string()),
        device: model.map(|_| "ossi".to_string()),
        connection_kind: kind.into(),
    }
}

#[test]
fn validates_wireless_addresses() {
    assert!(safe_address("192.168.1.20:5555").is_ok());
    assert!(safe_address("bad address:5555").is_err());
    assert!(safe_address("192.168.1.20").is_err());
}

#[test]
fn parses_route_source_ipv4() {
    let route = "192.168.1.0/24 dev wlan0 proto kernel scope link src 192.168.1.55";
    assert_eq!(parse_route_ipv4(route).as_deref(), Some("192.168.1.55"));
}

#[test]
fn parses_wlan_inet_ipv4() {
    let addr = "inet 10.0.0.18/24 brd 10.0.0.255 scope global wlan0";
    assert_eq!(parse_wlan_ipv4(addr).as_deref(), Some("10.0.0.18"));
}

#[test]
fn identifies_failed_adb_connect_text() {
    assert!(connect_failed("failed to connect to 1.2.3.4:5555"));
    assert!(!connect_failed("connected to 1.2.3.4:5555"));
}

#[test]
fn matches_same_physical_device_from_adb_metadata() {
    let usb = DeviceInfo {
        serial: "ABC123".into(),
        state: "device".into(),
        model: Some("CPH2413".into()),
        product: Some("ossi".into()),
        device: Some("ossi".into()),
        connection_kind: "usb".into(),
    };
    let wifi = DeviceInfo {
        serial: "192.168.1.20:5555".into(),
        state: "device".into(),
        model: Some("CPH2413".into()),
        product: Some("ossi".into()),
        device: Some("ossi".into()),
        connection_kind: "wireless".into(),
    };
    assert!(same_physical_phone(&usb, &wifi, &None, &None));
}

#[test]
fn addresses_are_trimmed_and_limited() {
    assert_eq!(safe_address("  10.0.0.2:5555 \n"), Ok("10.0.0.2:5555".to_string()));
    let long = format!("{}:1", "a".repeat(254));
    assert!(safe_address(&long).is_err());
    let fits = format!("{}:1", "a".repeat(253));
    assert!(safe_address(&fits).is_ok());
    assert_eq!(
        safe_address(""),
        Err("Enter a valid host:port address, for example 192.168.1.20:37123.".to_string())
    );
}

#[test]
fn pairing_checks_address_then_code() {
    assert_eq!(
        pair_device_args("10.0.0.2:37000", " 123456 "),
        Ok(vec!["pair".to_string(), "10.0.0.2:37000".to_string(), "123456".to_string()])
    );
    assert_eq!(
        pair_device_args("10.0.0.2:37000", "12a456"),
        Err("Enter the numeric pairing code shown on the phone.".to_string())
    );
    assert!(pairing_code("12345").is_err());
    assert!(pairing_code("1234567890123").is_err());
    assert!(pair_device_args("nope", "123456").unwrap_err().starts_with("Enter a valid host:port"));
    assert_eq!(pair_message("Successfully paired".to_string()), "Successfully paired");
    assert!(pair_message(String::new()).starts_with("Pairing request completed."));
}

#[test]
fn connection_outcomes() {
    assert_eq!(
        connect_device_args("10.0.0.2:5555"),
        Ok(vec!["connect".to_string(), "10.0.0.2:5555".to_string()])
    );
    let addr = "10.0.0.2:5555".to_string();
    assert_eq!(connect_outcome(&addr, String::new()), Ok("Connected to 10.0.0.2:5555".to_string()));
    assert_eq!(
        connect_outcome(&addr, "Connection REFUSED".to_string()),
        Err("Connection REFUSED".to_string())
    );
    assert!(connect_failed("operation TIMED OUT"));
    assert_eq!(disconnect_args("x:1"), vec!["disconnect", "x:1"]);
}

#[test]
fn properties_and_hardware_serials() {
    assert_eq!(adb_getprop(Some(" R58N \n")), Some("R58N".to_string()));
    assert_eq!(adb_getprop(Some("unknown")), None);
    assert_eq!(adb_getprop(Some("   ")), None);
    assert_eq!(adb_getprop(None), None);
    assert_eq!(hardware_serial(Some(""), Some("B2")), Some("B2".to_string()));
    assert_eq!(hardware_serial(Some("A1"), Some("B2")), Some("A1".to_string()));
    assert_eq!(connected_model(Some("Pixel 9"), "1.2.3.4:5555"), "Pixel 9");
    assert_eq!(connected_model(None, "1.2.3.4:5555"), "1.2.3.4:5555");
}

#[test]
fn same_phone_by_hardware_serial() {
    let a = device("A", "device", "usb", None);
    let b = device("B", "device", "wireless", None);
    assert!(same_physical_phone(&a, &b, &Some("X".into()), &Some("X".into())));
    assert!(same_physical_phone(&b, &a, &Some("X".into()), &Some("X".into())));
    assert!(!same_physical_phone(&a, &b, &Some("X".into()), &Some("Y".into())));
    assert!(!same_physical_phone(&a, &b, &None, &None));
}

#[test]
fn finds_the_usb_transport_of_a_wireless_phone() {
    let devices = vec![
        device("10.0.0.2:5555", "device", "wireless", Some("CPH2413")),
        device("ABC", "device", "usb", Some("CPH2413")),
        device("DEF", "device", "usb", Some("Other")),
    ];
    let found = sibling_transport(&devices, &Vec::new(), "10.0.0.2:5555", "usb").unwrap();
    assert_eq!(found.map(|d| d.serial), Some("ABC".to_string()));
    assert_eq!(
        sibling_transport(&devices, &Vec::new(), "zzz", "usb").err(),
        Some("The selected phone is no longer visible to ADB.".to_string())
    );
    let two = vec![
        device("10.0.0.2:5555", "device", "wireless", Some("M")),
        device("A", "device", "usb", Some("M")),
        device("B", "device", "usb", Some("M")),
    ];
    assert!(sibling_transport(&two, &Vec::new(), "10.0.0.2:5555", "usb").unwrap().is_none());
}

#[test]
fn switching_to_usb() {
    let devices = vec![
        device("10.0.0.2:5555", "device", "wireless", Some("CPH2413")),
        device("ABC", "device", "usb", Some("CPH2413")),
    ];
    let plan = switch_to_usb(&devices, &Vec::new(), "10.0.0.2:5555").unwrap();
    assert!(plan.disconnect_wireless);
    assert_eq!(plan.result.active_serial, "ABC");
    assert_eq!(plan.result.active_connection, "usb");
    let already = switch_to_usb(&devices, &Vec::new(), "ABC").unwrap();
    assert!(!already.disconnect_wireless);
    assert_eq!(already.result.message, "USB is already the active connection.");
    let alone = vec![device("10.0.0.2:5555", "device", "wireless", Some("CPH2413"))];
    assert!(switch_to_usb(&alone, &Vec::new(), "10.0.0.2:5555")
        .err()
        .unwrap()
        .starts_with("Connect this phone with a USB data cable"));
}

#[test]
fn enabling_wireless_from_usb() {
    let devices = vec![
        device("ABC", "device", "usb", None),
        device("DEF", "unauthorized", "usb", None),
        device("1.2.3.4:5555", "device", "wireless", None),
    ];
    assert_eq!(usb_wireless_check(&devices, "ABC"), Ok(()));
    assert_eq!(
        usb_wireless_check(&devices, "DEF"),
        Err("The selected device is not authorized for ADB.".to_string())
    );
    assert_eq!(
        usb_wireless_check(&devices, "1.2.3.4:5555"),
        Err("This device is already connected wirelessly.".to_string())
    );
    assert_eq!(
        usb_wireless_check(&devices, "XYZ"),
        Err("The selected USB device is no longer connected.".to_string())
    );
    assert_eq!(tcpip_args("ABC"), vec!["-s", "ABC", "tcpip", "5555"]);
    let address = wireless_address(&"10.0.0.18".to_string());
    assert_eq!(address, "10.0.0.18:5555");
    let result = wireless_enabled(&address);
    assert!(result.safe_to_unplug_usb);
    assert_eq!(
        result.message,
        "Wireless connection established at 10.0.0.18:5555. You can unplug the USB cable now."
    );
}

#[test]
fn wifi_address_falls_back_to_the_interface() {
    assert_eq!(
        device_wifi_ip(Some("default via 10.0.0.1 dev wlan0"), Some("inet 10.0.0.18/24 brd x")),
        Ok("10.0.0.18".to_string())
    );
    assert_eq!(device_wifi_ip(Some("x src 10.0.0.9"), None), Ok("10.0.0.9".to_string()));
    assert!(device_wifi_ip(None, None).unwrap_err().starts_with("Could not detect"));
    assert_eq!(parse_route_ipv4("src 300.1.1.1 src 1.2.3.4"), Some("1.2.3.4".to_string()));
    assert_eq!(parse_route_ipv4("src 01.2.3.4"), None);
}

#[test]
fn remembered_addresses_are_most_recent_first() {
    let mut store = WirelessStore { devices: Vec::new() };
    remember_address(&mut store, "10.0.0.2:5555", Some("Pixel"), 100);
    remember_address(&mut store, "10.0.0.3:5555", None, 200);
    remember_address(&mut store, "10.0.0.2:5555", Some("Pixel 9"), 300);
    assert_eq!(store.devices.len(), 2);
    assert_eq!(store.devices[0].address, "10.0.0.2:5555");
    assert_eq!(store.devices[0].label, "Pixel 9");
    assert_eq!(store.devices[0].last_used, 300);
    assert_eq!(store.devices[1].label, "10.0.0.3:5555");
    let connected = vec![device("10.0.0.3:5555", "device", "wireless", None)];
    let listed = list_remembered_wireless(&store, &connected);
    assert_eq!(listed.len(), 2);
    assert!(!listed[0].connected);
    assert!(listed[1].connected);
    forget_address(&mut store, "10.0.0.2:5555");
    assert_eq!(store.devices.len(), 1);
    assert_eq!(store.devices[0].address, "10.0.0.3:5555");
}

#[test]
fn forgetting_reports_the_remaining_transport() {
    let usb = device("ABC", "device", "usb", None);
    let with_usb = forget_result(&Some(usb));
    assert_eq!(with_usb.active_serial, "ABC");
    assert_eq!(with_usb.active_connection, "usb");
    let alone = forget_result(&None);
    assert_eq!(alone.active_serial, "");
    assert_eq!(alone.active_connection, "none");
    assert_eq!(alone.message, "Wireless connection disconnected and forgotten.");
}
