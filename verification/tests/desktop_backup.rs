use scrcpy_studio::desktop_backup::{
    backup_available, desktop_enable_commands, desktop_enable_result, desktop_restore_commands,
    desktop_restore_result, ensure_ready_device, forget_backup, reboot_args, reboot_device,
    save_backup_if_missing, DesktopBackupStore,
};
use scrcpy_studio::desktop::{
    ENABLE_FREEFORM, ENABLE_NON_RESIZABLE_MULTI_WINDOW, FORCE_DESKTOP, FORCE_RESIZABLE,
};
use scrcpy_studio::models::{DesktopSettingDiagnostic, DeviceInfo};

fn setting(key: &str, value: Option<&str>) -> DesktopSettingDiagnostic {
    DesktopSettingDiagnostic { key: key.into(), value: value.map(|v| v.to_string()) }
}

#[test]
fn a_backup_is_never_replaced() {
    let mut store = DesktopBackupStore { devices: Vec::new() };
    assert!(!backup_available(&store, "R58N"));
    let first: Vec<String> = vec!["null\n".into(), "0\n".into(), "1".into(), "".into()];
    save_backup_if_missing(&mut store, "R58N", 34, &first);
    let second: Vec<String> = vec!["1".into(), "1".into(), "1".into(), "1".into()];
    save_backup_if_missing(&mut store, "R58N", 34, &second);
    assert!(backup_available(&store, "R58N"));
    assert_eq!(store.devices.len(), 1);
    let restore = desktop_restore_commands(&store, "R58N").unwrap();
    assert_eq!(
        restore,
        vec![
            vec!["settings", "delete", "global", FORCE_DESKTOP],
            vec!["settings", "put", "global", ENABLE_FREEFORM, "0"],
            vec!["settings", "put", "global", FORCE_RESIZABLE, "1"],
            vec!["settings", "delete", "global", ENABLE_NON_RESIZABLE_MULTI_WINDOW],
        ]
    );
    forget_backup(&mut store, "R58N");
    assert!(!backup_available(&store, "R58N"));
    assert_eq!(
        desktop_restore_commands(&store, "R58N").err(),
        Some("No original Desktop developer settings backup exists for this phone.".to_string())
    );
}

#[test]
fn preparing_writes_every_desktop_setting() {
    let cmds = desktop_enable_commands(34).unwrap();
    assert_eq!(cmds.len(), 4);
    assert_eq!(cmds[0], vec!["settings", "put", "global", FORCE_DESKTOP, "1"]);
    assert_eq!(desktop_enable_commands(36).unwrap().len(), 5);
    assert!(desktop_enable_commands(28).unwrap_err().starts_with("Android Desktop Windowing preparation requires Android 10"));
    let applied = vec![
        setting(FORCE_DESKTOP, Some("1")),
        setting(ENABLE_FREEFORM, Some("1")),
        setting(FORCE_RESIZABLE, Some("true")),
        setting(ENABLE_NON_RESIZABLE_MULTI_WINDOW, Some("1")),
    ];
    let result = desktop_enable_result(&applied, 34).ok().unwrap();
    assert!(result.reboot_started && result.backup_available && !result.prepared);
    assert_eq!(
        desktop_enable_result(&applied, 36).err(),
        Some("Android did not retain all requested desktop developer settings.".to_string())
    );
    let restored = desktop_restore_result();
    assert!(!restored.backup_available);
}

#[test]
fn desktop_changes_need_an_authorized_phone() {
    let devices = vec![DeviceInfo {
        serial: "A".into(),
        state: "unauthorized".into(),
        model: None,
        product: None,
        device: None,
        connection_kind: "usb".into(),
    }];
    assert_eq!(
        ensure_ready_device(&devices, "A"),
        Err("Authorize the device before changing Desktop settings.".to_string())
    );
    assert_eq!(
        ensure_ready_device(&devices, "B"),
        Err("Selected device is no longer connected.".to_string())
    );
    assert_eq!(reboot_args("A"), vec!["-s", "A", "reboot"]);
    assert_eq!(reboot_device(false, "exit status: 1"), Err("ADB reboot exited with exit status: 1".to_string()));
    assert_eq!(reboot_device(true, ""), Ok(()));
}
