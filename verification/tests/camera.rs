use scrcpy_studio::camera::{
    camera_capabilities, camera_output_readable, command_output, dimensions, first_dimensions,
    list_camera_capabilities, list_values, parse_camera_header, parse_camera_output, parse_fps,
};

#[test]
fn parses_modern_camera_list() {
    let raw = r#"
[server] INFO: List of cameras:
    --camera-id=0    (back, 4624x3472, fps={10, 15, 20, 30}, zoom-range=[1, 10])
        - 3840x2160
        - 1920x1080
    --camera-id=1    (front, 4208x3120, fps=[15, 30, 60], zoom-range=[1, 4])
        - 1920x1080
        - 1280x720
"#;
    let cameras = parse_camera_output(raw);
    assert_eq!(cameras.len(), 2);
    assert_eq!(cameras[0].id, "0");
    assert_eq!(cameras[0].facing, "back");
    assert_eq!(cameras[0].fps, vec![10, 15, 20, 30]);
    let zoom_max: Option<f64> = cameras[0]
        .zoom_max
        .as_deref()
        .map(|text| text.parse::<f64>().unwrap());
    assert_eq!(zoom_max, Some(10.0));
    assert!(cameras[0].sizes.contains(&"1920x1080".to_string()));
    assert_eq!(cameras[1].facing, "front");
    assert_eq!(cameras[1].fps, vec![15, 30, 60]);
}

#[test]
fn merges_repeated_camera_headers() {
    let raw = "--camera-id=0 (back, 4000x3000, fps=[15, 30])\n--camera-id=0 (back, 4000x3000, fps=[15, 30])\n    - 1920x1080\n";
    let cameras = parse_camera_output(raw);
    assert_eq!(cameras.len(), 1);
    assert_eq!(cameras[0].sizes, vec!["1920x1080"]);
}

#[test]
fn sizes_are_listed_largest_first() {
    let raw = "--camera-id=0 (back, 4000x3000)\n    - 1280x720\n    - 3840x2160\n    - 1920x1080\n";
    let cameras = parse_camera_output(raw);
    assert_eq!(cameras[0].sizes, vec!["3840x2160", "1920x1080", "1280x720"]);
}

#[test]
fn cameras_are_ordered_by_numeric_id() {
    let raw = "--camera-id=10 (front, 100x100)\n--camera-id=2 (back, 100x100)\n";
    let cameras = parse_camera_output(raw);
    assert_eq!(cameras[0].id, "2");
    assert_eq!(cameras[1].id, "10");
}

#[test]
fn frame_rates_are_sorted_without_duplicates() {
    assert_eq!(parse_fps("fps=[60, 30, 30, 15]"), vec![15, 30, 60]);
}

#[test]
fn reads_sizes_and_lists() {
    assert_eq!(dimensions("(1920x1080,"), Some((1920, 1080)));
    assert_eq!(dimensions("x"), None);
    assert_eq!(first_dimensions("back, 4624x3472, fps"), Some((4624, 3472)));
    assert_eq!(list_values("fps={10, 15}", "fps={"), vec!["10", "15"]);
    assert_eq!(list_values("fps={10, 15}", "fps="), vec!["{10", "15"]);
}

#[test]
fn reads_a_camera_header() {
    let cam = parse_camera_header("--camera-id=3 (external, 640x480, fps=[30])").unwrap();
    assert_eq!(cam.id, "3");
    assert_eq!(cam.facing, "external");
    assert_eq!(cam.max_width, Some(640));
    assert!(!cam.torch_likely);
    assert!(parse_camera_header("no header here").is_none());
}

#[test]
fn recommends_the_back_camera() {
    let raw = "--camera-id=0 (front, 100x100)\n--camera-id=1 (back, 100x100)\n";
    assert!(camera_output_readable(raw));
    let caps = list_camera_capabilities(raw);
    assert!(caps.camera_supported);
    assert_eq!(caps.recommended_camera_id.as_deref(), Some("1"));
    let none = camera_capabilities(Vec::new());
    assert!(!none.camera_supported);
    assert!(none.recommended_camera_id.is_none());
}

#[test]
fn reversed_parentheses_are_not_readable() {
    assert!(!camera_output_readable("--camera-id=0 ) back ("));
}

#[test]
fn camera_command_output_joins_both_streams() {
    assert_eq!(command_output(" a ", " b ", true, "exit status: 0"), Ok("a\nb".to_string()));
    assert_eq!(
        command_output("", "", false, "exit status: 1"),
        Err("Camera probe failed with exit status: 1".to_string())
    );
    assert_eq!(command_output("", "boom", false, "x"), Err("boom".to_string()));
}
