//! The values that the library reads and produces.
use vstd::prelude::*;

verus! {

/// What `adb` and `scrcpy` report about the installed runtime.
pub struct RuntimeStatus {
    pub adb_found: bool,
    pub scrcpy_found: bool,
    pub adb_path: Option<String>,
    pub scrcpy_path: Option<String>,
    pub adb_version: Option<String>,
    pub scrcpy_version: Option<String>,
}

/// One line of `adb devices -l`.
pub struct DeviceInfo {
    pub serial: String,
    pub state: String,
    pub model: Option<String>,
    pub product: Option<String>,
    pub device: Option<String>,
    pub connection_kind: String,
}

/// A device line as plain values.
pub struct DeviceView {
    pub serial: Seq<char>,
    pub state: Seq<char>,
    pub model: Option<Seq<char>>,
    pub product: Option<Seq<char>>,
    pub device: Option<Seq<char>>,
    pub connection_kind: Seq<char>,
}

pub open spec fn opt_seq(o: Option<String>) -> Option<Seq<char>> {
    match o {
        Some(v) => Some(v@),
        None => None,
    }
}

impl View for DeviceInfo {
    type V = DeviceView;

    open spec fn view(&self) -> DeviceView {
        DeviceView {
            serial: self.serial@,
            state: self.state@,
            model: opt_seq(self.model),
            product: opt_seq(self.product),
            device: opt_seq(self.device),
            connection_kind: self.connection_kind@,
        }
    }
}

pub open spec fn device_views(v: Seq<DeviceInfo>) -> Seq<DeviceView> {
    v.map_values(|d: DeviceInfo| d@)
}

/// A video encoder that the phone offers.
pub struct VideoEncoderInfo {
    pub codec: String,
    pub name: String,
}

/// What the library knows of one authorized phone.
pub struct DeviceProfile {
    pub serial: String,
    pub model: String,
    pub brand: String,
    pub android_version: String,
    pub sdk: u32,
    pub width: Option<u32>,
    pub height: Option<u32>,
    pub density: Option<u32>,
    pub connection_kind: String,
    pub supports_audio: bool,
    pub supports_camera: bool,
    pub can_attempt_virtual_display: bool,
    pub h265_available: bool,
    pub av1_available: bool,
    pub video_encoders: Vec<VideoEncoderInfo>,
}

/// Suggested session settings for a phone and a mode.
pub struct Recommendation {
    pub mode: String,
    pub max_size: u32,
    pub max_fps: u32,
    pub codec: String,
    pub audio: bool,
    pub stay_awake: bool,
    pub turn_screen_off: bool,
    pub show_touches: bool,
    pub quality_label: String,
    pub rationale: Vec<String>,
}

/// The camera zoom of a launch configuration, held as the facts that argument building
/// reads of the floating-point value: whether it is finite and positive, whether it exceeds
/// `1.01`, and its text with two decimals.
pub struct ZoomLevel {
    pub usable: bool,
    pub above_unity: bool,
    pub text: String,
}

/// Everything one scrcpy launch is built from.
pub struct LaunchConfig {
    pub serial: String,
    pub mode: String,
    pub max_size: u32,
    pub max_fps: u32,
    pub codec: String,
    pub video_bit_rate: u32,
    pub video_encoder: Option<String>,
    pub audio: bool,
    pub audio_source: Option<String>,
    pub stay_awake: bool,
    pub turn_screen_off: bool,
    pub show_touches: bool,
    pub record: bool,
    pub fullscreen: bool,
    pub capture_orientation: Option<String>,
    pub crop: Option<String>,
    pub camera_id: Option<String>,
    pub camera_facing: Option<String>,
    pub camera_zoom: Option<ZoomLevel>,
    pub camera_torch: bool,
    pub camera_size: Option<String>,
    pub camera_aspect_ratio: Option<String>,
    pub camera_high_speed: bool,
    pub desktop_width: Option<u32>,
    pub desktop_height: Option<u32>,
    pub desktop_density: Option<u32>,
    pub desktop_flex: bool,
    pub desktop_no_decorations: bool,
    pub desktop_keep_content: bool,
    pub desktop_start_app: Option<String>,
    pub desktop_environment: Option<String>,
    pub desktop_display_id: Option<u32>,
}

/// The video bit rate (in Mbit/s) of a configuration that names none.
pub fn default_video_bit_rate() -> (r: u32)
    ensures
        r == 8,
{
    8
}

/// What one launch request ended with.
pub struct LaunchResult {
    pub started: bool,
    pub fallback_used: bool,
    pub attempts: usize,
    pub command_preview: String,
    pub recording_path: Option<String>,
    pub message: String,
    pub desktop_diagnostics: Option<DesktopDiagnostics>,
}

/// One line of the connection doctor's report.
pub struct DoctorFinding {
    pub level: String,
    pub title: String,
    pub detail: String,
    pub action: Option<String>,
}

/// A remembered wireless address, with whether it is connected now.
pub struct RememberedWirelessDevice {
    pub address: String,
    pub label: String,
    pub connected: bool,
    pub last_used: u64,
}

/// Which transport is active after a switch.
pub struct TransportSwitchResult {
    pub active_serial: String,
    pub active_connection: String,
    pub message: String,
    pub safe_to_unplug_usb: bool,
}

/// A high-speed capture mode of a camera.
pub struct CameraHighSpeedMode {
    pub size: String,
    pub fps: Vec<u32>,
}

/// One camera as `scrcpy --list-cameras --list-camera-sizes` reports it.
///
/// The zoom bounds are the texts of the reported range; turning them into numbers is
/// left to the caller.
pub struct CameraInfo {
    pub id: String,
    pub facing: String,
    pub max_width: Option<u32>,
    pub max_height: Option<u32>,
    pub fps: Vec<u32>,
    pub zoom_min: Option<String>,
    pub zoom_max: Option<String>,
    pub sizes: Vec<String>,
    pub high_speed_modes: Vec<CameraHighSpeedMode>,
    pub torch_likely: bool,
}

/// The cameras of a phone and which one to start with.
pub struct CameraCapabilities {
    pub camera_supported: bool,
    pub recommended_camera_id: Option<String>,
    pub cameras: Vec<CameraInfo>,
    pub note: String,
}

/// One Android global setting that Desktop Mode reads, with its value.
pub struct DesktopSettingDiagnostic {
    pub key: String,
    pub value: Option<String>,
}

/// What a Desktop Mode probe or launch observed.
pub struct DesktopDiagnostics {
    pub command: String,
    pub exit_result: String,
    pub display_id: Option<u32>,
    pub display_name: Option<String>,
    pub resolution: Option<String>,
    pub density: Option<u32>,
    pub launcher_activity: Option<String>,
    pub windowing_mode: String,
    pub relevant_settings: Vec<DesktopSettingDiagnostic>,
    pub platform_evidence: Vec<String>,
    pub scrcpy_output: String,
    pub log_path: Option<String>,
}

impl DesktopDiagnostics {
    pub open spec fn is_fresh(self) -> bool {
        &&& self.command@ == Seq::<char>::empty()
        &&& self.exit_result@ == "not run"@
        &&& self.display_id is None
        &&& self.display_name is None
        &&& self.resolution is None
        &&& self.density is None
        &&& self.launcher_activity is None
        &&& self.windowing_mode@ == "unknown"@
        &&& self.relevant_settings@.len() == 0
        &&& self.platform_evidence@.len() == 0
        &&& self.scrcpy_output@ == Seq::<char>::empty()
        &&& self.log_path is None
    }
}

impl Default for DesktopDiagnostics {
    fn default() -> (d: Self)
        ensures
            d.is_fresh(),
    {
        DesktopDiagnostics {
            command: String::new(),
            exit_result: String::from_str("not run"),
            display_id: None,
            display_name: None,
            resolution: None,
            density: None,
            launcher_activity: None,
            windowing_mode: String::from_str("unknown"),
            relevant_settings: Vec::new(),
            platform_evidence: Vec::new(),
            scrcpy_output: String::new(),
            log_path: None,
        }
    }
}

/// Which desktop environment a phone can show, and how to launch it.
pub struct DesktopCapabilities {
    pub supported: bool,
    pub environment_kind: String,
    pub environment_label: String,
    pub launch_label: String,
    pub virtual_display_supported: bool,
    pub android_desktop_windowing_available: bool,
    pub android_desktop_windowing_active: bool,
    pub samsung_dex_available: bool,
    pub samsung_dex_active: bool,
    pub existing_display_id: Option<u32>,
    pub recommended_width: u32,
    pub recommended_height: u32,
    pub recommended_density: u32,
    pub flex_supported: bool,
    pub system_decorations_supported: bool,
    pub keep_content_supported: bool,
    pub launcher_package: Option<String>,
    pub startup_package: String,
    pub desktop_experience_prepared: bool,
    pub desktop_experience_can_prepare: bool,
    pub desktop_experience_backup_available: bool,
    pub desktop_experience_summary: String,
    pub message: String,
    pub diagnostics: DesktopDiagnostics,
}

/// What enabling or restoring the desktop developer settings did.
pub struct DesktopExperienceResult {
    pub prepared: bool,
    pub backup_available: bool,
    pub reboot_started: bool,
    pub message: String,
}

/// The managed session as the interface sees it.
pub struct SessionStatus {
    pub active: bool,
    pub serial: Option<String>,
    pub mode: Option<String>,
    pub applied_config: Option<LaunchConfig>,
}

} // verus!
