use scrcpy_studio::creator::{
    adb_shell_text, logical_display_device, recording_file_name, recordings_root,
    screencap_args, screencap_outcome, screenshot_display_id, screenshot_file_name,
    screenshots_root, surface_display_id, surfaceflinger_display_id, DisplayLookup,
};
use std::path::PathBuf;

#[test]
fn media_layout_has_recordings_and_screenshots() {
    let root = PathBuf::from("Videos").join("SCRCPY Studio");
    assert_eq!(root.join("Recordings").file_name().unwrap(), "Recordings");
    assert_eq!(root.join("Screenshots").file_name().unwrap(), "Screenshots");
    let recordings = recordings_root();
    let screenshots = screenshots_root();
    let mut rec_path = PathBuf::from("Videos");
    for part in &recordings {
        rec_path.push(part);
    }
    let mut shot_path = PathBuf::from("Videos");
    for part in &screenshots {
        shot_path.push(part);
    }
    assert_eq!(rec_path, root.join("Recordings"));
    assert_eq!(shot_path, root.join("Screenshots"));
}

#[test]
fn maps_a_logical_virtual_display_to_its_surfaceflinger_id() {
    let display = r#"
    mDisplayId=42
    mPrimaryDisplayDevice=scrcpy(virtual:com.android.shell,2000,scrcpy,36)
    mIsEnabled=true
"#;
    let surface = r#"
Display 4630947232161729154 (HWC display 0): port=130 displayName=""
Display 11529215050104701316 (Virtual display): displayName="scrcpy"
"#;
    let (name, unique_id) = logical_display_device(display, 42).unwrap();
    assert_eq!(name, "scrcpy");
    assert_eq!(unique_id, "virtual:com.android.shell,2000,scrcpy,36");
    assert_eq!(
        surfaceflinger_display_id(surface, &name).as_deref(),
        Some("11529215050104701316")
    );
}

#[test]
fn reads_a_physical_surface_id_from_the_logical_display_device() {
    let display = r#"
    mDisplayId=0
    mPrimaryDisplayDevice=Built-in Screen(local:4630947232161729154)
    mIsEnabled=true
"#;
    assert_eq!(
        logical_display_device(display, 0),
        Some((
            "Built-in Screen".into(),
            "local:4630947232161729154".into()
        ))
    );
}

#[test]
fn screenshot_display_lookup_steps() {
    let physical = "mDisplayId=0\nmPrimaryDisplayDevice=Built-in Screen(local:123)\n";
    match screenshot_display_id(physical, 0).unwrap() {
        DisplayLookup::Found(id) => assert_eq!(id, "123"),
        DisplayLookup::ByName(_) => panic!("a local display needs no name lookup"),
    }
    let virtual_dump = "mDisplayId=5\nmPrimaryDisplayDevice=scrcpy(virtual:x)\n";
    match screenshot_display_id(virtual_dump, 5).unwrap() {
        DisplayLookup::ByName(name) => assert_eq!(name, "scrcpy"),
        DisplayLookup::Found(_) => panic!("a virtual display is looked up by name"),
    }
    assert_eq!(
        screenshot_display_id(physical, 9).err(),
        Some("Android display 9 is no longer active.".to_string())
    );
    assert_eq!(
        surface_display_id("nothing", "scrcpy", 5).err(),
        Some("Android display 5 (scrcpy) could not be mapped for screenshot capture. Relaunch Desktop Mode and try again.".to_string())
    );
}

#[test]
fn device_line_beyond_eight_lines_is_not_used() {
    let text = "mDisplayId=1\n1\n2\n3\n4\n5\n6\n7\n8\nmPrimaryDisplayDevice=late(local:1)\n";
    assert_eq!(logical_display_device(text, 1), None);
}

#[test]
fn surface_id_must_be_digits() {
    let surface = "Display abc (Virtual display): displayName=\"scrcpy\"\n";
    assert_eq!(surfaceflinger_display_id(surface, "scrcpy"), None);
}

#[test]
fn shell_text_reports_failures() {
    let args = vec!["dumpsys".to_string(), "display".to_string()];
    assert_eq!(
        adb_shell_text(false, String::new(), "  ", &args),
        Err("ADB command failed: dumpsys display".to_string())
    );
    assert_eq!(adb_shell_text(false, String::new(), " denied ", &args), Err("denied".to_string()));
    assert_eq!(adb_shell_text(true, " out ".to_string(), "", &args), Ok(" out ".to_string()));
}

#[test]
fn screenshot_names_and_arguments() {
    assert_eq!(screenshot_file_name("2024-01-02_03-04-05"), "SCRCPY-Studio-2024-01-02_03-04-05.png");
    assert_eq!(recording_file_name("03-04-05"), "SCRCPY-Studio-03-04-05.mp4");
    assert_eq!(
        screencap_args("ABC", &Some("7".to_string())),
        vec!["-s", "ABC", "exec-out", "screencap", "-d", "7", "-p"]
    );
    assert_eq!(screencap_args("ABC", &None), vec!["-s", "ABC", "exec-out", "screencap", "-p"]);
    assert_eq!(screencap_outcome(true, "", true), Err("Android returned an empty screenshot.".to_string()));
    assert_eq!(screencap_outcome(false, "", false), Err("Android screenshot capture failed.".to_string()));
    assert_eq!(screencap_outcome(true, "", false), Ok(()));
}
