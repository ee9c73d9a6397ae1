use scrcpy_studio::managed::{
    adb_shell, commit_live_setting, desktop_launch_name, end_if_closed, keep_backup,
    launch_device_check, launch_exhausted, launch_started, launch_step, LaunchStep, live_setting_plan, new_live_session,
    read_setting, read_setting_args, restore_live_settings, restore_setting, session_status,
    shell_preview, write_setting, LiveAction, LiveSetting, SettingBackup,
};
use scrcpy_studio::models::{DesktopDiagnostics, DeviceInfo, LaunchConfig};

fn cfg(mode: &str) -> LaunchConfig {
    LaunchConfig {
        serial: "ABC".into(),
        mode: mode.into(),
        max_size: 1920,
        max_fps: 60,
        codec: "h264".into(),
        video_bit_rate: 8,
        video_encoder: None,
        audio: true,
        audio_source: None,
        stay_awake: true,
        turn_screen_off: false,
        show_touches: false,
        record: false,
        fullscreen: false,
        capture_orientation: None,
        crop: None,
        camera_id: None,
        camera_facing: None,
        camera_zoom: None,
        camera_torch: false,
        camera_size: None,
        camera_aspect_ratio: None,
        camera_high_speed: false,
        desktop_width: None,
        desktop_height: None,
        desktop_density: None,
        desktop_flex: false,
        desktop_no_decorations: false,
        desktop_keep_content: false,
        desktop_start_app: None,
        desktop_environment: None,
        desktop_display_id: None,
    }
}

#[test]
fn previews_quote_arguments_with_spaces() {
    let args = vec!["-s".to_string(), "A".to_string(), "--window-title=SCRCPY Studio · A".to_string()];
    assert_eq!(
        shell_preview("/usr/bin/scrcpy", &args),
        "/usr/bin/scrcpy -s A \"--window-title=SCRCPY Studio · A\""
    );
}

#[test]
fn desktop_launches_are_named_by_environment() {
    let mut c = cfg("desktop");
    assert_eq!(desktop_launch_name(&c), "Virtual Display");
    c.desktop_environment = Some("samsung_dex".into());
    assert_eq!(desktop_launch_name(&c), "Samsung DeX display");
    c.desktop_environment = Some("android_desktop_windowing".into());
    assert_eq!(desktop_launch_name(&c), "Android Desktop Windowing");
}

#[test]
fn settings_are_read_and_restored() {
    assert_eq!(adb_shell(true, " 1 ", ""), Ok("1".to_string()));
    assert_eq!(adb_shell(false, "out", " err "), Err("err".to_string()));
    assert_eq!(adb_shell(false, " out ", ""), Err("out".to_string()));
    assert!(matches!(read_setting(Ok("null".to_string())), Ok(SettingBackup::Missing)));
    let value = read_setting(Ok("3".to_string())).unwrap();
    assert_eq!(restore_setting("global", "k", &value), vec!["settings", "put", "global", "k", "3"]);
    assert_eq!(
        restore_setting("system", "k", &SettingBackup::Missing),
        vec!["settings", "delete", "system", "k"]
    );
    assert_eq!(read_setting_args("system", "show_touches"), vec!["settings", "get", "system", "show_touches"]);
    assert_eq!(write_setting("system", "show_touches", "1"), vec!["settings", "put", "system", "show_touches", "1"]);
}

#[test]
fn live_settings_follow_the_session() {
    assert_eq!(
        live_setting_plan(&None, &cfg("mirror"), "fullscreen", true).err(),
        Some("No active scrcpy session is running.".to_string())
    );
    let session = Some(new_live_session(&cfg("mirror")));
    let mut other = cfg("camera");
    other.serial = "ABC".into();
    assert_eq!(
        live_setting_plan(&session, &other, "fullscreen", true).err(),
        Some("The active scrcpy window belongs to another device or mode.".to_string())
    );
    assert_eq!(
        live_setting_plan(&session, &cfg("mirror"), "fullscreen", false).err(),
        Some("The active scrcpy window has already closed.".to_string())
    );
    let mut want = cfg("mirror");
    want.show_touches = true;
    let (setting, action) = live_setting_plan(&session, &want, "showTouches", true).unwrap();
    assert!(matches!(setting, LiveSetting::ShowTouches));
    match action {
        LiveAction::WriteSetting { namespace, name, value, backup_first } => {
            assert_eq!((namespace, name, value, backup_first), ("system", "show_touches", "1", true));
        }
        _ => panic!("showing touches writes a setting"),
    }
    assert_eq!(
        live_setting_plan(&session, &cfg("mirror"), "cameraTorch", true).err(),
        Some("This setting requires restarting the current scrcpy session.".to_string())
    );
    let (_, off) = live_setting_plan(&session, &cfg("mirror"), "turnScreenOff", true).unwrap();
    assert!(matches!(off, LiveAction::PressModKey { key: 'o', shift: true }));
}

#[test]
fn committing_a_live_setting_changes_only_that_setting() {
    let mut session = new_live_session(&cfg("mirror"));
    assert!(session.scrcpy_manages_stay_awake);
    keep_backup(&mut session, LiveSetting::ShowTouches, SettingBackup::Value("0".into()));
    let mut want = cfg("mirror");
    want.show_touches = true;
    want.max_fps = 5;
    let status = commit_live_setting(&mut session, &want, LiveSetting::ShowTouches);
    assert!(status.active);
    assert!(session.config.show_touches);
    assert_eq!(session.config.max_fps, 60);
    assert_eq!(status.applied_config.unwrap().max_fps, 60);
    let restore = restore_live_settings(&session);
    assert_eq!(restore, vec![vec!["settings", "put", "system", "show_touches", "0"]]);
}

#[test]
fn a_closed_window_ends_the_session() {
    let mut active = Some(new_live_session(&cfg("mirror")));
    assert!(end_if_closed(&mut active, false, false).is_none());
    assert!(active.is_some());
    assert!(end_if_closed(&mut active, true, true).is_none());
    let ended = end_if_closed(&mut active, true, false);
    assert!(ended.is_some());
    assert!(active.is_none());
    let status = session_status(&active);
    assert!(!status.active && status.serial.is_none());
}

#[test]
fn launch_checks_and_outcomes() {
    let devices = vec![DeviceInfo {
        serial: "ABC".into(),
        state: "offline".into(),
        model: None,
        product: None,
        device: None,
        connection_kind: "usb".into(),
    }];
    assert_eq!(
        launch_device_check(&devices, "ABC"),
        Err("Device is 'offline', not ready. Run Connection Doctor for the next step.".to_string())
    );
    let started = launch_started(&cfg("camera"), 2, 4, "p".into(), None, None, false);
    assert!(started.fallback_used);
    assert_eq!(started.attempts, 3);
    assert_eq!(
        started.message,
        "Camera opened after SCRCPY Studio automatically found a safer working combination on attempt 3 of 4."
    );
    let first = launch_started(&cfg("mirror"), 0, 4, "p".into(), None, None, true);
    assert_eq!(first.message, "Session started with the selected smart profile.");
    let recovered = launch_started(&cfg("mirror"), 1, 4, "p".into(), None, None, true);
    assert_eq!(
        recovered.message,
        "Session recovered on attempt 2 of 4. This working profile is now remembered for this device."
    );
    assert_eq!(
        launch_exhausted(&cfg("mirror"), 4, None, None).err(),
        Some("scrcpy exited immediately after 4 smart attempts. Open Connection Doctor and verify the device/runtime.".to_string())
    );
    let mut d = DesktopDiagnostics::default();
    d.scrcpy_output = "[stderr] one\n[stderr] ERROR: boom\n\n".into();
    d.command = "scrcpy --new-display".into();
    let r = launch_exhausted(&cfg("desktop"), 3, Some(d), None).unwrap();
    assert!(!r.started);
    assert_eq!(r.command_preview, "scrcpy --new-display");
    assert_eq!(
        r.message,
        "Virtual Display did not stay running after 3 attempts: [stderr] ERROR: boom. Open Desktop Diagnostics for the complete command, output, and device evidence."
    );
}

#[test]
fn variants_are_tried_in_order_until_one_starts() {
    assert!(matches!(launch_step(0, 3, true), LaunchStep::Started));
    assert!(matches!(launch_step(0, 3, false), LaunchStep::Next(1)));
    assert!(matches!(launch_step(1, 3, false), LaunchStep::Next(2)));
    assert!(matches!(launch_step(2, 3, false), LaunchStep::Exhausted));
    assert!(matches!(launch_step(2, 3, true), LaunchStep::Started));
}
