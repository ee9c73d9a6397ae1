use scrcpy_studio::desktop::PlatformSnapshot;
use scrcpy_studio::desktop_watch::{
    collect_display_diagnostics, diagnostic_log_name, finish_launch, finish_probe, format_exit,
    launch_diagnostics, probe_diagnostics, record_arg, record_created_display,
};
use scrcpy_studio::models::{DesktopDiagnostics, DesktopSettingDiagnostic};

fn platform() -> PlatformSnapshot {
    PlatformSnapshot {
        settings: vec![DesktopSettingDiagnostic { key: "k".into(), value: Some("1".into()) }],
        evidence: vec!["e".into()],
        android_desktop_available: false,
        samsung_dex_available: false,
        samsung_dex_active: false,
        samsung_dex_display_id: None,
    }
}

#[test]
fn display_readings_fill_the_diagnostics() {
    let mut d = DesktopDiagnostics::default();
    let activity = "Display #7\n  windowingMode=freeform\n  topResumedActivity=ActivityRecord{a u0 com.x/.Main t1}";
    collect_display_diagnostics(
        &mut d,
        7,
        Some("Physical size: 1280x720\n"),
        Some("Physical density: 160"),
        activity,
        "",
        "",
    );
    assert_eq!(d.display_id, Some(7));
    assert_eq!(d.resolution.as_deref(), Some("1280x720"));
    assert_eq!(d.density, Some(160));
    assert_eq!(d.windowing_mode, "freeform");
    assert_eq!(d.launcher_activity.as_deref(), Some("com.x/.Main"));
    assert_eq!(
        d.platform_evidence,
        vec!["wm size -d 7: Physical size: 1280x720", "wm density -d 7: Physical density: 160"]
    );
}

#[test]
fn exits_and_log_names() {
    assert_eq!(format_exit(Some(0), "x"), "exit code 0");
    assert_eq!(format_exit(Some(-1), "x"), "exit code -1");
    assert_eq!(format_exit(None, "signal: 9 (SIGKILL)"), "signal: 9 (SIGKILL)");
    assert_eq!(diagnostic_log_name("probe", "10.0.0.2:5555", 1700000000123), "probe-10-0-0-2-5555-1700000000123.json");
    assert_eq!(record_arg("/tmp/p.mp4"), "--record=/tmp/p.mp4");
}

#[test]
fn probes_and_launches_record_their_outcome() {
    let mut d = probe_diagnostics("scrcpy -s A".into(), &platform());
    assert_eq!(d.command, "scrcpy -s A");
    assert_eq!(d.platform_evidence, vec!["e"]);
    record_created_display(&mut d, 1024, 640, 160, None);
    assert_eq!(d.resolution.as_deref(), Some("1024x640"));
    assert!(d.display_id.is_none());
    assert!(!finish_probe(&mut d, "exit code 1".into(), "  ".into(), false));
    assert_eq!(d.scrcpy_output, "scrcpy produced no captured output.");
    let mut l = launch_diagnostics("c".into(), &vec!["--display-id=2".to_string()], &platform());
    assert_eq!(l.display_id, Some(2));
    assert!(finish_launch(&mut l, None, "out".into()));
    assert_eq!(l.exit_result, "running (final exit result will be written when scrcpy closes)");
    let mut m = launch_diagnostics("c".into(), &Vec::new(), &platform());
    record_created_display(&mut m, 800, 600, 120, Some(9));
    assert_eq!(m.display_id, Some(9));
    assert!(!finish_launch(&mut m, Some("exit code 1".into()), "o".into()));
    let mut ok = probe_diagnostics("c".into(), &platform());
    ok.display_id = Some(3);
    assert!(finish_probe(&mut ok, "exit code 0".into(), "".into(), true));
    assert_eq!(ok.scrcpy_output, "");
}
