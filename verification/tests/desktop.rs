use scrcpy_studio::desktop::{
    can_prepare_desktop_experience, cap_output, command_preview, compact_error,
    component_display_id, developer_settings_applied, diagnostic_setting_enabled,
    diagnostic_setting_keys, display_id_from_args, display_name, get_global_setting,
    is_samsung_dex_active, named_desktop_display_id, observed_windowing_mode, overlay_bool,
    parse_density, parse_new_display, parse_number_after, parse_resolution,
    parse_samsung_dex_display_id, quote_preview, read_setting_diagnostics, collect_platform_snapshot,
    PlatformReadings, recommended_desktop_geometry, running_activity,
    stable_device_key, virtual_display_probe_args, desktop_setting_keys, ENABLE_FREEFORM,
    ENABLE_NON_RESIZABLE_MULTI_WINDOW, FORCE_DESKTOP, FORCE_RESIZABLE,
    OVERRIDE_DESKTOP_EXPERIENCE, OVERRIDE_DESKTOP_MODE,
};
use scrcpy_studio::models::DesktopSettingDiagnostic;

fn setting(key: &str, value: Option<&str>) -> DesktopSettingDiagnostic {
    DesktopSettingDiagnostic { key: key.into(), value: value.map(|v| v.to_string()) }
}

#[test]
fn compact_error_prefers_last_nonempty_line() {
    assert_eq!(compact_error("first\n\nlast"), "last");
}

#[test]
fn wireless_geometry_stays_desktop_class() {
    let (width, height, density) = recommended_desktop_geometry("Samsung", true);
    assert_eq!((width, height), (1280, 720));
    assert!(height * 160 / density >= 600);
}

#[test]
fn parses_scrcpy_41_new_display_log() {
    let parsed = parse_new_display("[server] INFO: New display: 1024x640/160 (id=7)");
    assert_eq!(parsed, Some((1024, 640, 160, 7)));
}

#[test]
fn detects_actual_freeform_windowing_for_the_created_display() {
    let dump = "Display #0\n  windowingMode=fullscreen\nDisplay #7\n  TaskDisplayArea windowingMode=freeform\n  topResumedActivity=ActivityRecord{abc u0 com.android.settings/.Settings t12}";
    assert_eq!(observed_windowing_mode(dump, 7), "freeform");
    assert_eq!(
        running_activity(dump, 7).as_deref(),
        Some("com.android.settings/.Settings")
    );
}

#[test]
fn global_flags_are_not_the_desktop_windowing_verdict() {
    let settings = vec![
        setting(FORCE_DESKTOP, Some("1")),
        setting(ENABLE_FREEFORM, Some("1")),
        setting(FORCE_RESIZABLE, Some("1")),
        setting(ENABLE_NON_RESIZABLE_MULTI_WINDOW, Some("1")),
        setting(OVERRIDE_DESKTOP_EXPERIENCE, Some("1")),
    ];
    assert!(developer_settings_applied(&settings, 36));
    assert_eq!(
        observed_windowing_mode("Display #3\nwindowingMode=fullscreen", 3),
        "fullscreen"
    );
}

#[test]
fn android_16_samsung_can_prepare_generic_freeform_windowing() {
    assert!(can_prepare_desktop_experience(true, false, 36, true, false));
}

#[test]
fn preparation_is_hidden_only_after_all_settings_are_applied() {
    assert!(!can_prepare_desktop_experience(true, false, 36, true, true));
}

#[test]
fn preparation_requires_every_setting_it_writes() {
    let settings = vec![
        setting(FORCE_DESKTOP, Some("1")),
        setting(ENABLE_FREEFORM, Some("1")),
        setting(FORCE_RESIZABLE, Some("1")),
        setting(ENABLE_NON_RESIZABLE_MULTI_WINDOW, Some("0")),
        setting(OVERRIDE_DESKTOP_EXPERIENCE, Some("1")),
    ];
    assert!(!developer_settings_applied(&settings, 36));
}

#[test]
fn recognizes_active_samsung_dex_service_state() {
    let dump = "SemDesktopModeState{ enabled=4, state=0 } mDisplayId=2";
    assert!(is_samsung_dex_active(dump));
    assert_eq!(parse_samsung_dex_display_id(dump), Some(2));
}

#[test]
fn finds_samsung_dex_launcher_on_a_secondary_display() {
    let dump = "Display #0\n  com.sec.android.app.launcher/.Launcher\nDisplay #2\n  topResumedActivity=ActivityRecord{abc u0 com.sec.android.app.desktoplauncher/.DesktopLauncher t4}";
    assert_eq!(
        component_display_id(dump, &["com.sec.android.app.desktoplauncher"]),
        Some(2)
    );
}

#[test]
fn virtual_display_probe_uses_an_app_without_disabling_control() {
    let args = virtual_display_probe_args("ABC");
    assert!(args.iter().any(|arg| arg.starts_with("--start-app=")));
    assert!(!args.contains(&"--no-control".to_string()));
}

#[test]
fn android_16_diagnostics_include_current_and_legacy_switches() {
    let keys = diagnostic_setting_keys(36);
    assert!(keys.contains(&FORCE_DESKTOP));
    assert!(keys.contains(&ENABLE_FREEFORM));
    assert!(keys.contains(&OVERRIDE_DESKTOP_EXPERIENCE));
    assert!(keys.contains(&OVERRIDE_DESKTOP_MODE));
}

#[test]
fn older_android_writes_four_settings() {
    assert_eq!(desktop_setting_keys(35).len(), 4);
    assert_eq!(diagnostic_setting_keys(35).len(), 4);
    assert_eq!(desktop_setting_keys(36).len(), 5);
    assert_eq!(diagnostic_setting_keys(36).len(), 6);
}

#[test]
fn preparation_needs_android_10() {
    assert!(!can_prepare_desktop_experience(true, false, 28, true, false));
    assert!(!can_prepare_desktop_experience(true, false, 33, false, false));
    assert!(!can_prepare_desktop_experience(true, true, 36, true, false));
}

#[test]
fn long_errors_are_cut() {
    let long = "x".repeat(300);
    let short = compact_error(&long);
    assert_eq!(short.chars().count(), 221);
    assert!(short.ends_with('…'));
}

#[test]
fn captured_output_is_capped() {
    let long = "y".repeat(16_001);
    let capped = cap_output(long);
    assert_eq!(capped.chars().count(), 16_000 + "\n… output truncated".chars().count());
    assert_eq!(cap_output("small".to_string()), "small");
}

#[test]
fn wired_and_other_brands_get_larger_displays() {
    assert_eq!(recommended_desktop_geometry("Google", false).0, 1920);
}

#[test]
fn setting_values_and_flags() {
    assert_eq!(get_global_setting(" null "), None);
    assert_eq!(get_global_setting(" 1 "), Some("1".to_string()));
    let settings = vec![setting(FORCE_DESKTOP, Some("TRUE"))];
    assert!(diagnostic_setting_enabled(&settings, FORCE_DESKTOP));
    assert!(!diagnostic_setting_enabled(&settings, ENABLE_FREEFORM));
    assert_eq!(overlay_bool("true"), Some(true));
    assert_eq!(parse_number_after("mDisplayId=12 x", "mDisplayId="), Some(12));
}

#[test]
fn stable_key_prefers_the_hardware_serial() {
    assert_eq!(stable_device_key("1.2.3.4:5555", Some(" R58N "), None), "R58N");
    assert_eq!(stable_device_key("1.2.3.4:5555", Some("unknown"), Some("B2")), "B2");
    assert_eq!(stable_device_key("ABC", None, None), "ABC");
}

#[test]
fn display_details_from_dumps() {
    assert_eq!(parse_resolution("Physical size: 1080x2400"), Some("1080x2400".to_string()));
    assert_eq!(parse_density("Physical density: 420"), Some(420));
    let dump = "Display #4\n  DisplayDeviceInfo{\"scrcpy\": uniqueId=x}\n";
    assert_eq!(display_name(dump, 4), Some("scrcpy".to_string()));
    assert_eq!(named_desktop_display_id("nothing"), None);
}

#[test]
fn previews_quote_words_with_spaces() {
    assert_eq!(quote_preview("a b"), "\"a b\"");
    assert_eq!(quote_preview("say\"hi there"), "\"say\\\"hi there\"");
    assert_eq!(
        command_preview("C:\\Program Files\\scrcpy.exe", &vec!["-s".to_string(), "A".to_string()]),
        "\"C:\\Program Files\\scrcpy.exe\" -s A"
    );
    assert_eq!(display_id_from_args(&vec!["--display-id=3".to_string()]), Some(3));
}

#[test]
fn diagnostics_report_every_key_for_the_android_version() {
    let outputs = vec![
        Some("1".to_string()),
        None,
        Some("null".to_string()),
        Some(" 0 ".to_string()),
        Some("true".to_string()),
        Some("".to_string()),
    ];
    let settings = read_setting_diagnostics(36, &outputs);
    let keys: Vec<&str> = settings.iter().map(|s| s.key.as_str()).collect();
    assert_eq!(keys, diagnostic_setting_keys(36));
    let values: Vec<Option<&str>> = settings.iter().map(|s| s.value.as_deref()).collect();
    assert_eq!(values, vec![Some("1"), None, None, Some("0"), Some("true"), None]);
}

#[test]
fn the_platform_snapshot_reports_the_keys_of_its_android_version() {
    let readings = PlatformReadings {
        sdk: 34,
        setting_outputs: vec![None, None, None, None],
        desktop_mode_supported: None,
        desktop_dev_option_supported: None,
        supports_multi_window: None,
        freeform_window_management: None,
        freeform_feature: None,
        launcher_installed: false,
        desktop_service: String::new(),
        activity_dump: String::new(),
        display_dump: String::new(),
    };
    let snapshot = collect_platform_snapshot(readings, "Google");
    let keys: Vec<&str> = snapshot.settings.iter().map(|s| s.key.as_str()).collect();
    assert_eq!(keys, diagnostic_setting_keys(34));
    assert!(snapshot.settings.iter().all(|s| s.value.is_none()));
}
