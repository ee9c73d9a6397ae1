use scrcpy_studio::models::{default_video_bit_rate, LaunchConfig, ZoomLevel};
use scrcpy_studio::session::{
    build_args, capture_orientation_arg, fallback_configs, safe_camera_size, safe_crop,
    safe_desktop_density, safe_desktop_dimension, safe_video_codec, safe_video_encoder,
    session_window_title, valid_camera_facing, validate_launch_mode,
};

fn sample_config(mode: &str) -> LaunchConfig {
    LaunchConfig {
        serial: "ABC".into(),
        mode: mode.into(),
        max_size: 1920,
        max_fps: 60,
        codec: "h265".into(),
        video_bit_rate: 8,
        video_encoder: None,
        audio: true,
        audio_source: Some(if mode == "camera" { "mic" } else { "output" }.into()),
        stay_awake: true,
        turn_screen_off: false,
        show_touches: false,
        record: false,
        fullscreen: false,
        capture_orientation: None,
        crop: None,
        camera_id: None,
        camera_facing: None,
        camera_zoom: None,
        camera_torch: false,
        camera_size: None,
        camera_aspect_ratio: None,
        camera_high_speed: false,
        desktop_width: None,
        desktop_height: None,
        desktop_density: None,
        desktop_flex: false,
        desktop_no_decorations: false,
        desktop_keep_content: false,
        desktop_start_app: None,
        desktop_environment: None,
        desktop_display_id: None,
    }
}

/// The zoom 2.0 as the launch configuration holds it.
fn zoom_two() -> ZoomLevel {
    ZoomLevel { usable: true, above_unity: true, text: "2.00".into() }
}

#[test]
fn generates_progressively_safer_fallbacks() {
    let config = sample_config("mirror");
    let variants = fallback_configs(&config);
    assert_eq!(variants.len(), 4);
    assert_eq!(variants[1].codec, "h264");
    assert_eq!(variants[2].max_size, 1280);
    assert_eq!(variants[3].max_fps, 30);
}

#[test]
fn camera_args_use_camera_specific_fps_and_controls() {
    let mut config = sample_config("camera");
    config.camera_id = Some("2".into());
    config.camera_facing = Some("back".into());
    config.camera_zoom = Some(zoom_two());
    config.camera_torch = true;
    let args = build_args(&config, &None);
    assert!(args.contains(&"--video-source=camera".to_string()));
    assert!(args.contains(&"--camera-id=2".to_string()));
    assert!(args.contains(&"--camera-fps=60".to_string()));
    assert!(args.contains(&"--camera-zoom=2.00".to_string()));
    assert!(args.contains(&"--camera-torch".to_string()));
    assert!(args.contains(&"--audio-source=mic".to_string()));
    assert!(args.contains(&"--video-bit-rate=8M".to_string()));
    assert!(!args.iter().any(|arg| arg.starts_with("--max-fps=")));
}

#[test]
fn advanced_video_options_are_safely_forwarded() {
    let mut config = sample_config("creator");
    config.codec = "av1".into();
    config.video_bit_rate = 24;
    config.video_encoder = Some("c2.android.av1.encoder".into());
    config.capture_orientation = Some("90".into());
    config.crop = Some("1080:1920:0:0".into());
    let args = build_args(&config, &None);
    assert!(args.contains(&"--video-codec=av1".to_string()));
    assert!(args.contains(&"--video-bit-rate=24M".to_string()));
    assert!(args.contains(&"--video-encoder=c2.android.av1.encoder".to_string()));
    assert!(args.contains(&"--capture-orientation=@90".to_string()));
    assert!(args.contains(&"--crop=1080:1920:0:0".to_string()));
}

#[test]
fn screen_off_takes_precedence_over_stay_awake() {
    let mut config = sample_config("mirror");
    config.stay_awake = true;
    config.turn_screen_off = true;
    let args = build_args(&config, &None);
    assert!(args.contains(&"--turn-screen-off".to_string()));
    assert!(!args.contains(&"--stay-awake".to_string()));
}

#[test]
fn invalid_advanced_values_fall_back_or_are_ignored() {
    let mut config = sample_config("creator");
    config.codec = "made-up".into();
    config.video_bit_rate = 999;
    config.video_encoder = Some("invalid encoder name".into());
    config.capture_orientation = Some("45".into());
    config.crop = Some("invalid".into());
    let args = build_args(&config, &None);
    assert!(args.contains(&"--video-codec=h264".to_string()));
    assert!(args.contains(&"--video-bit-rate=8M".to_string()));
    assert!(!args.iter().any(|arg| arg.starts_with("--video-encoder=")));
    assert!(!args
        .iter()
        .any(|arg| arg.starts_with("--capture-orientation=")));
    assert!(!args.iter().any(|arg| arg.starts_with("--crop=")));
}

#[test]
fn high_speed_camera_uses_an_explicit_supported_size() {
    let mut config = sample_config("camera");
    config.camera_high_speed = true;
    config.camera_size = Some("1280x720".into());
    config.max_fps = 120;
    let args = build_args(&config, &None);
    assert!(args.contains(&"--camera-size=1280x720".to_string()));
    assert!(args.contains(&"--camera-fps=120".to_string()));
    assert!(args.contains(&"--camera-high-speed".to_string()));
    assert!(!args.iter().any(|arg| arg.starts_with("--max-size=")));
}

#[test]
fn rejects_a_stale_config_from_another_mode() {
    let config = sample_config("mirror");
    let error = validate_launch_mode(&config, &"camera".to_string()).unwrap_err();
    assert!(error.contains("changed while its settings were loading"));
}

#[test]
fn accepts_a_config_for_the_requested_mode() {
    let config = sample_config("camera");
    assert!(validate_launch_mode(&config, &"camera".to_string()).is_ok());
}

#[test]
fn camera_fallbacks_remove_risky_options() {
    let mut config = sample_config("camera");
    config.camera_id = Some("0".into());
    config.camera_facing = Some("back".into());
    config.camera_zoom = Some(zoom_two());
    config.camera_torch = true;
    config.camera_high_speed = true;
    config.camera_size = Some("1280x720".into());
    config.max_fps = 120;
    let variants = fallback_configs(&config);
    assert!(variants.iter().any(|item| !item.camera_torch));
    assert!(variants.iter().any(|item| !item.camera_high_speed));
    assert!(variants.iter().any(|item| item.camera_zoom.is_none()));
    assert!(variants.iter().any(|item| item.codec == "h264"));
    assert!(variants.iter().any(|item| item.max_fps == 30));
    assert!(variants.iter().any(|item| item.max_size == 1280));
    assert!(variants.iter().any(|item| item.camera_id.is_none()));
}

#[test]
fn desktop_args_use_verified_virtual_display_controls() {
    let mut config = sample_config("desktop");
    config.desktop_width = Some(1920);
    config.desktop_height = Some(1080);
    config.desktop_density = Some(240);
    config.desktop_flex = true;
    config.desktop_keep_content = true;
    config.desktop_start_app = Some("com.android.settings".into());
    let args = build_args(&config, &None);
    assert!(args.contains(&"--new-display=1920x1080/240".to_string()));
    assert!(args.contains(&"--flex-display".to_string()));
    assert!(args.contains(&"--no-vd-destroy-content".to_string()));
    assert!(args.contains(&"--start-app=com.android.settings".to_string()));
    assert!(args.contains(&"--display-ime-policy=local".to_string()));
    assert!(args.contains(&"--keep-active".to_string()));
}

#[test]
fn desktop_does_not_move_apps_to_the_phone_by_default() {
    let config = sample_config("desktop");
    let args = build_args(&config, &None);
    assert!(!args.contains(&"--no-vd-destroy-content".to_string()));
}

#[test]
fn desktop_fallbacks_reduce_risky_options() {
    let mut config = sample_config("desktop");
    config.desktop_width = Some(1920);
    config.desktop_height = Some(1080);
    config.desktop_density = Some(240);
    config.desktop_flex = true;
    config.desktop_start_app = Some("com.example.launcher".into());
    let variants = fallback_configs(&config);
    assert!(variants.iter().any(|item| !item.desktop_flex));
    assert!(variants
        .iter()
        .any(|item| item.desktop_start_app.as_deref() == Some("com.android.settings")));
    assert!(variants.iter().any(|item| item.desktop_width == Some(1280)));
    assert!(variants.iter().any(|item| item.max_fps == 30));
}

#[test]
fn samsung_dex_captures_an_existing_display() {
    let mut config = sample_config("desktop");
    config.desktop_environment = Some("samsung_dex".into());
    config.desktop_display_id = Some(2);
    let args = build_args(&config, &None);
    assert!(args.contains(&"--display-id=2".to_string()));
    assert!(!args.iter().any(|arg| arg.starts_with("--new-display=")));
}

#[test]
fn the_last_fallback_is_the_safest() {
    let mut config = sample_config("camera");
    config.camera_torch = true;
    config.camera_high_speed = true;
    config.camera_size = Some("1280x720".into());
    config.camera_zoom = Some(zoom_two());
    config.video_encoder = Some("c2.x".into());
    config.max_fps = 120;
    let variants = fallback_configs(&config);
    let last = variants.last().unwrap();
    assert_eq!(last.codec, "h264");
    assert!(last.video_encoder.is_none());
    assert!(last.max_fps <= 30);
    assert!(!last.camera_torch && !last.camera_high_speed);
    assert!(last.camera_zoom.is_none());
    assert!(last.max_size <= 1280);
    for pair in variants.windows(2) {
        assert!(pair[1].max_fps <= pair[0].max_fps);
        assert!(pair[1].max_size <= pair[0].max_size);
        assert_eq!(pair[1].serial, pair[0].serial);
    }
}

#[test]
fn a_safe_config_has_no_fallbacks() {
    let mut config = sample_config("mirror");
    config.codec = "h264".into();
    config.max_size = 1280;
    config.max_fps = 30;
    assert_eq!(fallback_configs(&config).len(), 1);
}

#[test]
fn a_dex_launch_keeps_the_desktop_shape() {
    let mut config = sample_config("desktop");
    config.desktop_environment = Some("samsung_dex".into());
    config.desktop_flex = true;
    let variants = fallback_configs(&config);
    assert!(variants.iter().all(|item| item.desktop_flex));
}

#[test]
fn window_title_and_recording() {
    assert_eq!(session_window_title(&"ABC".to_string()), "SCRCPY Studio · ABC");
    let mut config = sample_config("mirror");
    config.record = true;
    let args = build_args(&config, &Some("/tmp/a.mp4".to_string()));
    assert!(args.contains(&"--record=/tmp/a.mp4".to_string()));
    assert_eq!(args.last().unwrap(), "--window-title=SCRCPY Studio · ABC");
    assert_eq!(&args[0..2], &["-s".to_string(), "ABC".to_string()]);
}

#[test]
fn sanitizers_accept_only_known_values() {
    assert!(valid_camera_facing(&"front".to_string()));
    assert!(!valid_camera_facing(&"side".to_string()));
    assert_eq!(safe_desktop_dimension(Some(100), 1280), 1280);
    assert_eq!(safe_desktop_dimension(Some(1600), 1280), 1600);
    assert_eq!(safe_desktop_density(None), 240);
    assert_eq!(safe_desktop_density(Some(700)), 240);
    assert_eq!(safe_video_codec(&"h265".to_string()), "h265");
    assert_eq!(safe_video_codec(&"vp9".to_string()), "h264");
    assert_eq!(safe_video_encoder(&Some("OMX.google.h264".to_string())).as_deref(), Some("OMX.google.h264"));
    assert_eq!(safe_camera_size(&Some("1920x1080".to_string())).as_deref(), Some("1920x1080"));
    assert_eq!(safe_camera_size(&Some("big".to_string())), None);
    assert_eq!(safe_crop(&Some("1:2:3:4".to_string())).as_deref(), Some("1:2:3:4"));
    assert_eq!(capture_orientation_arg(&Some("180".to_string())).as_deref(), Some("--capture-orientation=@180"));
    assert_eq!(default_video_bit_rate(), 8);
}

#[test]
fn unknown_modes_are_refused() {
    let config = sample_config("mirror");
    assert_eq!(
        validate_launch_mode(&config, &"party".to_string()),
        Err("Unknown session mode.".to_string())
    );
}
