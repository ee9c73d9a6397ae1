use scrcpy_studio::models::LaunchConfig;
use scrcpy_studio::preferences::{
    load_learned_profile, profile_key, remember_successful_profile, ProfileStore,
};

#[test]
fn device_and_mode_form_distinct_keys() {
    assert_ne!(profile_key("ABC", "mirror"), profile_key("ABC", "creator"));
    assert_ne!(profile_key("ABC", "mirror"), profile_key("XYZ", "mirror"));
}

fn config(serial: &str, mode: &str, max_size: u32) -> LaunchConfig {
    LaunchConfig {
        serial: serial.into(),
        mode: mode.into(),
        max_size,
        max_fps: 60,
        codec: "h265".into(),
        video_bit_rate: 8,
        video_encoder: None,
        audio: true,
        audio_source: None,
        stay_awake: false,
        turn_screen_off: false,
        show_touches: false,
        record: false,
        fullscreen: false,
        capture_orientation: None,
        crop: None,
        camera_id: None,
        camera_facing: None,
        camera_zoom: None,
        camera_torch: false,
        camera_size: None,
        camera_aspect_ratio: None,
        camera_high_speed: false,
        desktop_width: None,
        desktop_height: None,
        desktop_density: None,
        desktop_flex: false,
        desktop_no_decorations: false,
        desktop_keep_content: false,
        desktop_start_app: None,
        desktop_environment: None,
        desktop_display_id: None,
    }
}

#[test]
fn a_remembered_profile_is_loaded_back() {
    let mut store = ProfileStore::new();
    assert!(load_learned_profile(&store, "ABC", "mirror").is_none());
    remember_successful_profile(&mut store, &config("ABC", "mirror", 1920));
    remember_successful_profile(&mut store, &config("ABC", "creator", 1280));
    remember_successful_profile(&mut store, &config("ABC", "mirror", 1024));
    let mirror = load_learned_profile(&store, "ABC", "mirror").unwrap();
    assert_eq!(mirror.max_size, 1024);
    assert_eq!(mirror.codec, "h265");
    assert_eq!(load_learned_profile(&store, "ABC", "creator").unwrap().max_size, 1280);
    assert!(load_learned_profile(&store, "XYZ", "mirror").is_none());
    assert_eq!(store.profiles.len(), 2);
}
