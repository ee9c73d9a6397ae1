//! The managed scrcpy session: launch outcomes, the session's status, and the settings that
//! can change while it runs.
use vstd::prelude::*;
use crate::desktop::{escape_quotes, escape_quotes_exec, join, join_exec, last_nonblank, last_nonblank_exec};
use crate::devices::{device_index, find_device};
use crate::models::{
    device_views, DesktopDiagnostics, DeviceInfo, DeviceView, LaunchConfig, LaunchResult,
    SessionStatus,
};
use crate::number::{dec, u64_text};
use crate::session::copy_config;
use crate::text::{
    chars_of, lines, lines_of, lit_plus, opt_is, opt_str_is, opt_view, str_is, string_of, strs,
    trim, trimmed, views,
};

verus! {

broadcast use vstd::string::group_string_axioms;

// ---------------------------------------------------------------------------
// Previews and names
// ---------------------------------------------------------------------------

/// An argument as the launch preview shows it: in double quotes, with inner quotes escaped,
/// when it holds a space.
pub open spec fn preview_arg(a: Seq<char>) -> Seq<char> {
    if a.contains(' ') {
        seq!['"'] + escape_quotes(a) + seq!['"']
    } else {
        a
    }
}

/// The program followed by its previewed arguments, separated by spaces.
pub open spec fn shell_preview_spec(path: Seq<char>, args: Seq<Seq<char>>) -> Seq<char> {
    path + " "@ + join(args.map_values(|a: Seq<char>| preview_arg(a)), " "@)
}

fn has_space(s: &[char]) -> (b: bool)
    ensures
        b == s@.contains(' '),
{
    let mut i: usize = 0;
    while i < s.len()
        invariant
            i <= s@.len(),
            forall|j: int| 0 <= j < i ==> s@[j] != ' ',
        decreases s@.len() - i,
    {
        if s[i] == ' ' {
            assert(s@[i as int] == ' ');
            return true;
        }
        i += 1;
    }
    false
}

fn preview_arg_exec(a: &[char]) -> (r: Vec<char>)
    ensures
        r@ == preview_arg(a@),
{
    if has_space(a) {
        let e = escape_quotes_exec(a);
        let mut r: Vec<char> = Vec::new();
        r.push('"');
        let mut i: usize = 0;
        while i < e.len()
            invariant
                i <= e@.len(),
                r@ == seq!['"'] + e@.take(i as int),
            decreases e@.len() - i,
        {
            r.push(e[i]);
            i += 1;
            assert(r@ =~= seq!['"'] + e@.take(i as int));
        }
        r.push('"');
        assert(e@.take(e@.len() as int) =~= e@);
        assert(r@ =~= seq!['"'] + e@ + seq!['"']);
        r
    } else {
        crate::text::copy_range(a, 0, a.len())
    }
}

/// `path` is the program as `Path::display` shows it.
pub fn shell_preview(path: &str, args: &Vec<String>) -> (r: String)
    ensures
        r@ == shell_preview_spec(path@, strs(args@)),
{
    let ghost sa = strs(args@);
    let mut values: Vec<Vec<char>> = Vec::new();
    let mut i: usize = 0;
    while i < args.len()
        invariant
            i <= args@.len(),
            sa == strs(args@),
            views(values@) =~= sa.take(i as int).map_values(|a: Seq<char>| preview_arg(a)),
        decreases args@.len() - i,
    {
        let q = preview_arg_exec(&chars_of(args[i].as_str()));
        let ghost b = views(values@);
        values.push(q);
        assert(sa[i as int] == args@[i as int]@);
        assert(views(values@) =~= b.push(q@));
        assert(sa.take(i + 1 as int).map_values(|a: Seq<char>| preview_arg(a)) =~= sa.take(
            i as int,
        ).map_values(|a: Seq<char>| preview_arg(a)).push(preview_arg(sa[i as int])));
        i += 1;
    }
    assert(sa.take(args@.len() as int) =~= sa);
    let joined = join_exec(&values, " ");
    let mut r = String::from_str(path);
    r.append(" ");
    r.append(string_of(&joined).as_str());
    r
}

/// What a Desktop Mode launch is called in messages, by its desktop environment.
pub open spec fn launch_name_spec(env: Option<String>) -> Seq<char> {
    if opt_is(env, "samsung_dex"@) {
        "Samsung DeX display"@
    } else if opt_is(env, "android_desktop_windowing"@) {
        "Android Desktop Windowing"@
    } else {
        "Virtual Display"@
    }
}

pub fn desktop_launch_name(config: &LaunchConfig) -> (r: &'static str)
    ensures
        r@ == launch_name_spec(config.desktop_environment),
{
    if opt_str_is(&config.desktop_environment, "samsung_dex") {
        "Samsung DeX display"
    } else if opt_str_is(&config.desktop_environment, "android_desktop_windowing") {
        "Android Desktop Windowing"
    } else {
        "Virtual Display"
    }
}

// ---------------------------------------------------------------------------
// Android settings changed during a session
// ---------------------------------------------------------------------------

/// The value an Android setting had before the session changed it.
pub enum SettingBackup {
    /// The setting was not set.
    Missing,
    Value(String),
}

pub enum BackupView {
    Missing,
    Value(Seq<char>),
}

pub open spec fn backup_view(b: SettingBackup) -> BackupView {
    match b {
        SettingBackup::Missing => BackupView::Missing,
        SettingBackup::Value(v) => BackupView::Value(v@),
    }
}

pub open spec fn result_view(r: Result<String, String>) -> Result<Seq<char>, Seq<char>> {
    match r {
        Ok(v) => Ok(v@),
        Err(e) => Err(e@),
    }
}

/// What an `adb shell` command answered: its trimmed output, else its trimmed error output;
/// on failure the error output first.
pub open spec fn shell_result_spec(success: bool, stdout: Seq<char>, stderr: Seq<char>) -> Result<
    Seq<char>,
    Seq<char>,
> {
    let out = trim(stdout);
    let err = trim(stderr);
    if success {
        Ok(
            if out.len() == 0 {
                err
            } else {
                out
            },
        )
    } else {
        Err(
            if err.len() == 0 {
                out
            } else {
                err
            },
        )
    }
}

pub fn adb_shell(success: bool, stdout: &str, stderr: &str) -> (r: Result<String, String>)
    ensures
        result_view(r) == shell_result_spec(success, stdout@, stderr@),
{
    let out = trimmed(&chars_of(stdout));
    let err = trimmed(&chars_of(stderr));
    if success {
        Ok(
            string_of(
                &(if out.len() == 0 {
                    err
                } else {
                    out
                }),
            ),
        )
    } else {
        Err(
            string_of(
                &(if err.len() == 0 {
                    out
                } else {
                    err
                }),
            ),
        )
    }
}

pub open spec fn read_setting_spec(output: Result<Seq<char>, Seq<char>>) -> Result<BackupView, Seq<char>> {
    match output {
        Err(e) => Err(e),
        Ok(v) => if v.len() == 0 || v == "null"@ {
            Ok(BackupView::Missing)
        } else {
            Ok(BackupView::Value(v))
        },
    }
}

pub open spec fn backup_result_view(r: Result<SettingBackup, String>) -> Result<BackupView, Seq<char>> {
    match r {
        Ok(b) => Ok(backup_view(b)),
        Err(e) => Err(e@),
    }
}

/// A setting's value from what `settings get` answered (see `adb_shell`); `null` or nothing
/// means it was not set.
pub fn read_setting(output: Result<String, String>) -> (r: Result<SettingBackup, String>)
    ensures
        backup_result_view(r) == read_setting_spec(result_view(output)),
{
    match output {
        Err(e) => Err(e),
        Ok(v) => {
            let c = chars_of(v.as_str());
            if c.len() == 0 || crate::text::eq_str(&c, "null") {
                Ok(SettingBackup::Missing)
            } else {
                Ok(SettingBackup::Value(v))
            }
        },
    }
}

/// The `adb shell` words that read a setting.
pub fn read_setting_args(namespace: &str, key: &str) -> (r: Vec<String>)
    ensures
        strs(r@) == seq!["settings"@, "get"@, namespace@, key@],
{
    let mut v: Vec<String> = Vec::new();
    v.push(String::from_str("settings"));
    v.push(String::from_str("get"));
    v.push(String::from_str(namespace));
    v.push(String::from_str(key));
    assert(strs(v@) =~= seq!["settings"@, "get"@, namespace@, key@]);
    v
}

/// The `adb shell` words that write a setting.
pub fn write_setting(namespace: &str, key: &str, value: &str) -> (r: Vec<String>)
    ensures
        strs(r@) == seq!["settings"@, "put"@, namespace@, key@, value@],
{
    let mut v: Vec<String> = Vec::new();
    v.push(String::from_str("settings"));
    v.push(String::from_str("put"));
    v.push(String::from_str(namespace));
    v.push(String::from_str(key));
    v.push(String::from_str(value));
    assert(strs(v@) =~= seq!["settings"@, "put"@, namespace@, key@, value@]);
    v
}

/// The `adb shell` words that give a setting back its earlier value: deleting it when it was
/// not set, writing the old value otherwise.
pub open spec fn restore_args_spec(namespace: Seq<char>, key: Seq<char>, backup: BackupView) -> Seq<
    Seq<char>,
> {
    match backup {
        BackupView::Missing => seq!["settings"@, "delete"@, namespace, key],
        BackupView::Value(v) => seq!["settings"@, "put"@, namespace, key, v],
    }
}

pub fn restore_setting(namespace: &str, key: &str, backup: &SettingBackup) -> (r: Vec<String>)
    ensures
        strs(r@) == restore_args_spec(namespace@, key@, backup_view(*backup)),
{
    match backup {
        SettingBackup::Missing => {
            let mut v: Vec<String> = Vec::new();
            v.push(String::from_str("settings"));
            v.push(String::from_str("delete"));
            v.push(String::from_str(namespace));
            v.push(String::from_str(key));
            assert(strs(v@) =~= restore_args_spec(namespace@, key@, backup_view(*backup)));
            v
        },
        SettingBackup::Value(value) => write_setting(namespace, key, value.as_str()),
    }
}

/// Restoring a setting from what reading it answered puts back exactly what was read, or
/// deletes the setting when it was not set.
pub proof fn lemma_restore_puts_back(namespace: Seq<char>, key: Seq<char>, value: Seq<char>)
    ensures
        read_setting_spec(Ok(value)) matches Ok(b) && restore_args_spec(namespace, key, b) == (
        if value.len() == 0 || value == "null"@ {
            seq!["settings"@, "delete"@, namespace, key]
        } else {
            seq!["settings"@, "put"@, namespace, key, value]
        }),
{
}

// ---------------------------------------------------------------------------
// The running session
// ---------------------------------------------------------------------------

/// The session the application launched and still manages.
pub struct LiveSession {
    pub config: LaunchConfig,
    pub show_touches_backup: Option<SettingBackup>,
    pub stay_awake_backup: Option<SettingBackup>,
    /// scrcpy itself shows touches for this session and undoes it when it ends.
    pub scrcpy_manages_show_touches: bool,
    /// scrcpy itself keeps the phone awake for this session and undoes it when it ends.
    pub scrcpy_manages_stay_awake: bool,
}

/// The session that a successful launch of `variant` starts.
pub fn new_live_session(variant: &LaunchConfig) -> (s: LiveSession)
    ensures
        s.config == *variant,
        s.show_touches_backup is None,
        s.stay_awake_backup is None,
        s.scrcpy_manages_show_touches == variant.show_touches,
        s.scrcpy_manages_stay_awake == (variant.stay_awake && !variant.turn_screen_off
            && variant.mode@ != "camera"@),
{
    let manages_stay = variant.stay_awake && !variant.turn_screen_off && !str_is(
        &variant.mode,
        "camera",
    );
    LiveSession {
        config: copy_config(variant),
        show_touches_backup: None,
        stay_awake_backup: None,
        scrcpy_manages_show_touches: variant.show_touches,
        scrcpy_manages_stay_awake: manages_stay,
    }
}

pub open spec fn cmds(v: Seq<Vec<String>>) -> Seq<Seq<Seq<char>>> {
    v.map_values(|c: Vec<String>| strs(c@))
}

/// The commands that give back the settings a session changed: touches first, then the
/// stay-awake setting.
pub open spec fn restore_live_spec(s: LiveSession) -> Seq<Seq<Seq<char>>> {
    (match s.show_touches_backup {
        Some(b) => seq![restore_args_spec("system"@, "show_touches"@, backup_view(b))],
        None => Seq::<Seq<Seq<char>>>::empty(),
    }) + (match s.stay_awake_backup {
        Some(b) => seq![restore_args_spec("global"@, "stay_on_while_plugged_in"@, backup_view(b))],
        None => Seq::<Seq<Seq<char>>>::empty(),
    })
}

pub fn restore_live_settings(session: &LiveSession) -> (r: Vec<Vec<String>>)
    ensures
        cmds(r@) == restore_live_spec(*session),
{
    let mut r: Vec<Vec<String>> = Vec::new();
    if let Some(b) = &session.show_touches_backup {
        r.push(restore_setting("system", "show_touches", b));
    }
    let ghost mid = cmds(r@);
    if let Some(b) = &session.stay_awake_backup {
        r.push(restore_setting("global", "stay_on_while_plugged_in", b));
    }
    assert(cmds(r@) =~= restore_live_spec(*session));
    r
}

/// The status of the managed session, if there is one.
pub open spec fn status_of(active: Option<LiveSession>, st: SessionStatus) -> bool {
    match active {
        Some(s) => st.active && opt_view(st.serial) == Some(s.config.serial@) && opt_view(st.mode)
            == Some(s.config.mode@) && st.applied_config == Some(s.config),
        None => !st.active && st.serial is None && st.mode is None && st.applied_config is None,
    }
}

pub fn session_status(active: &Option<LiveSession>) -> (r: SessionStatus)
    ensures
        status_of(*active, r),
{
    match active {
        Some(s) => SessionStatus {
            active: true,
            serial: Some(s.config.serial.clone()),
            mode: Some(s.config.mode.clone()),
            applied_config: Some(copy_config(&s.config)),
        },
        None => SessionStatus { active: false, serial: None, mode: None, applied_config: None },
    }
}

/// Ends the managed session when its window has closed after the start-up grace period, and
/// hands the ended session back so that its settings can be restored.
pub fn end_if_closed(active: &mut Option<LiveSession>, past_grace: bool, window_exists: bool) -> (r:
    Option<LiveSession>)
    ensures
        (*old(active) is Some && past_grace && !window_exists) ==> (r == *old(active)
            && *final(active) is None),
        !(*old(active) is Some && past_grace && !window_exists) ==> (r is None && *final(active)
            == *old(active)),
{
    if active.is_some() && past_grace && !window_exists {
        let mut taken: Option<LiveSession> = None;
        core::mem::swap(&mut taken, active);
        taken
    } else {
        None
    }
}

/// A setting that can change while scrcpy runs.
#[derive(Clone, Copy)]
pub enum LiveSetting {
    Fullscreen,
    TurnScreenOff,
    ShowTouches,
    StayAwake,
    CameraTorch,
}

/// What changing a live setting takes.
pub enum LiveAction {
    /// Press F11 in the scrcpy window.
    PressF11,
    /// Press scrcpy's shortcut modifier with `key` (and Shift when `shift`).
    PressModKey { key: char, shift: bool },
    /// Write the Android setting `name`; when `backup_first`, its current value is read and
    /// kept first.
    WriteSetting { namespace: &'static str, name: &'static str, value: &'static str, backup_first: bool },
}

pub enum ActionView {
    PressF11,
    PressModKey(char, bool),
    WriteSetting(Seq<char>, Seq<char>, Seq<char>, bool),
}

pub open spec fn action_view(a: LiveAction) -> ActionView {
    match a {
        LiveAction::PressF11 => ActionView::PressF11,
        LiveAction::PressModKey { key, shift } => ActionView::PressModKey(key, shift),
        LiveAction::WriteSetting { namespace, name, value, backup_first } => ActionView::WriteSetting(
            namespace@,
            name@,
            value@,
            backup_first,
        ),
    }
}

/// Which setting a request changes and how, or why it cannot change while scrcpy runs.
pub open spec fn live_plan_spec(
    active: Option<LiveSession>,
    config: LaunchConfig,
    setting: Seq<char>,
    window_exists: bool,
) -> Result<(LiveSetting, ActionView), Seq<char>> {
    match active {
        None => Err("No active scrcpy session is running."@),
        Some(s) => if s.config.serial@ != config.serial@ || s.config.mode@ != config.mode@ {
            Err("The active scrcpy window belongs to another device or mode."@)
        } else if !window_exists {
            Err("The active scrcpy window has already closed."@)
        } else if setting == "fullscreen"@ {
            Ok((LiveSetting::Fullscreen, ActionView::PressF11))
        } else if setting == "turnScreenOff"@ && config.mode@ != "camera"@ {
            Ok((LiveSetting::TurnScreenOff, ActionView::PressModKey('o', !config.turn_screen_off)))
        } else if setting == "showTouches"@ && config.mode@ != "camera"@ {
            Ok(
                (
                    LiveSetting::ShowTouches,
                    ActionView::WriteSetting(
                        "system"@,
                        "show_touches"@,
                        if config.show_touches {
                            "1"@
                        } else {
                            "0"@
                        },
                        s.show_touches_backup is None && !s.scrcpy_manages_show_touches,
                    ),
                ),
            )
        } else if setting == "stayAwake"@ && config.mode@ != "camera"@ && config.mode@
            != "desktop"@ {
            Ok(
                (
                    LiveSetting::StayAwake,
                    ActionView::WriteSetting(
                        "global"@,
                        "stay_on_while_plugged_in"@,
                        if config.stay_awake {
                            "7"@
                        } else {
                            "0"@
                        },
                        s.stay_awake_backup is None && !s.scrcpy_manages_stay_awake,
                    ),
                ),
            )
        } else if setting == "cameraTorch"@ && config.mode@ == "camera"@ {
            Ok((LiveSetting::CameraTorch, ActionView::PressModKey('t', !config.camera_torch)))
        } else {
            Err("This setting requires restarting the current scrcpy session."@)
        },
    }
}

pub open spec fn plan_view(r: Result<(LiveSetting, LiveAction), String>) -> Result<
    (LiveSetting, ActionView),
    Seq<char>,
> {
    match r {
        Ok((s, a)) => Ok((s, action_view(a))),
        Err(e) => Err(e@),
    }
}

/// `window_exists` tells whether the managed session's scrcpy window is still open.
pub fn live_setting_plan(
    active: &Option<LiveSession>,
    config: &LaunchConfig,
    setting: &str,
    window_exists: bool,
) -> (r: Result<(LiveSetting, LiveAction), String>)
    ensures
        plan_view(r) == live_plan_spec(*active, *config, setting@, window_exists),
{
    let s = match active {
        None => return Err(String::from_str("No active scrcpy session is running.")),
        Some(s) => s,
    };
    let same_serial = str_is(&s.config.serial, config.serial.as_str());
    let same_mode = str_is(&s.config.mode, config.mode.as_str());
    if !same_serial || !same_mode {
        return Err(String::from_str("The active scrcpy window belongs to another device or mode."));
    }
    if !window_exists {
        return Err(String::from_str("The active scrcpy window has already closed."));
    }
    let w = chars_of(setting);
    let camera = str_is(&config.mode, "camera");
    let desktop = str_is(&config.mode, "desktop");
    if crate::text::eq_str(&w, "fullscreen") {
        Ok((LiveSetting::Fullscreen, LiveAction::PressF11))
    } else if crate::text::eq_str(&w, "turnScreenOff") && !camera {
        Ok(
            (
                LiveSetting::TurnScreenOff,
                LiveAction::PressModKey { key: 'o', shift: !config.turn_screen_off },
            ),
        )
    } else if crate::text::eq_str(&w, "showTouches") && !camera {
        Ok(
            (
                LiveSetting::ShowTouches,
                LiveAction::WriteSetting {
                    namespace: "system",
                    name: "show_touches",
                    value: if config.show_touches {
                        "1"
                    } else {
                        "0"
                    },
                    backup_first: s.show_touches_backup.is_none() && !s.scrcpy_manages_show_touches,
                },
            ),
        )
    } else if crate::text::eq_str(&w, "stayAwake") && !camera && !desktop {
        Ok(
            (
                LiveSetting::StayAwake,
                LiveAction::WriteSetting {
                    namespace: "global",
                    name: "stay_on_while_plugged_in",
                    value: if config.stay_awake {
                        "7"
                    } else {
                        "0"
                    },
                    backup_first: s.stay_awake_backup.is_none() && !s.scrcpy_manages_stay_awake,
                },
            ),
        )
    } else if crate::text::eq_str(&w, "cameraTorch") && camera {
        Ok(
            (
                LiveSetting::CameraTorch,
                LiveAction::PressModKey { key: 't', shift: !config.camera_torch },
            ),
        )
    } else {
        Err(String::from_str("This setting requires restarting the current scrcpy session."))
    }
}

/// Keeps the value a setting had before the session first wrote it.
pub fn keep_backup(session: &mut LiveSession, setting: LiveSetting, backup: SettingBackup)
    ensures
        final(session).config == old(session).config,
        final(session).scrcpy_manages_show_touches == old(session).scrcpy_manages_show_touches,
        final(session).scrcpy_manages_stay_awake == old(session).scrcpy_manages_stay_awake,
        match setting {
            LiveSetting::ShowTouches => final(session).show_touches_backup == Some(backup)
                && final(session).stay_awake_backup == old(session).stay_awake_backup,
            LiveSetting::StayAwake => final(session).stay_awake_backup == Some(backup)
                && final(session).show_touches_backup == old(session).show_touches_backup,
            _ => final(session).show_touches_backup == old(session).show_touches_backup
                && final(session).stay_awake_backup == old(session).stay_awake_backup,
        },
{
    match setting {
        LiveSetting::ShowTouches => {
            session.show_touches_backup = Some(backup);
        },
        LiveSetting::StayAwake => {
            session.stay_awake_backup = Some(backup);
        },
        _ => {},
    }
}

/// The session's configuration once a live setting took effect: only that setting changes.
pub open spec fn committed(c: LaunchConfig, requested: LaunchConfig, setting: LiveSetting) -> LaunchConfig {
    match setting {
        LiveSetting::Fullscreen => LaunchConfig { fullscreen: requested.fullscreen, ..c },
        LiveSetting::TurnScreenOff => LaunchConfig { turn_screen_off: requested.turn_screen_off, ..c },
        LiveSetting::ShowTouches => LaunchConfig { show_touches: requested.show_touches, ..c },
        LiveSetting::StayAwake => LaunchConfig { stay_awake: requested.stay_awake, ..c },
        LiveSetting::CameraTorch => LaunchConfig { camera_torch: requested.camera_torch, ..c },
    }
}

/// Records that a live setting took effect and reports the session's status.
pub fn commit_live_setting(session: &mut LiveSession, config: &LaunchConfig, setting: LiveSetting) -> (r:
    SessionStatus)
    ensures
        final(session).config == committed(old(session).config, *config, setting),
        final(session).show_touches_backup == old(session).show_touches_backup,
        final(session).stay_awake_backup == old(session).stay_awake_backup,
        final(session).scrcpy_manages_show_touches == old(session).scrcpy_manages_show_touches,
        final(session).scrcpy_manages_stay_awake == old(session).scrcpy_manages_stay_awake,
        status_of(Some(*final(session)), r),
{
    match setting {
        LiveSetting::Fullscreen => {
            session.config.fullscreen = config.fullscreen;
        },
        LiveSetting::TurnScreenOff => {
            session.config.turn_screen_off = config.turn_screen_off;
        },
        LiveSetting::ShowTouches => {
            session.config.show_touches = config.show_touches;
        },
        LiveSetting::StayAwake => {
            session.config.stay_awake = config.stay_awake;
        },
        LiveSetting::CameraTorch => {
            session.config.camera_torch = config.camera_torch;
        },
    }
    SessionStatus {
        active: true,
        serial: Some(session.config.serial.clone()),
        mode: Some(session.config.mode.clone()),
        applied_config: Some(copy_config(&session.config)),
    }
}

// ---------------------------------------------------------------------------
// Launch outcomes
// ---------------------------------------------------------------------------

pub open spec fn unit_view(r: Result<(), String>) -> Result<(), Seq<char>> {
    match r {
        Ok(()) => Ok(()),
        Err(e) => Err(e@),
    }
}

/// Whether the configured phone can be launched: it is listed and authorized.
pub open spec fn launch_device_spec(ds: Seq<DeviceView>, serial: Seq<char>) -> Result<(), Seq<char>> {
    match device_index(ds, serial) {
        None => Err("Selected device is no longer connected."@),
        Some(k) => if ds[k].state != "device"@ {
            Err("Device is '"@ + ds[k].state + "', not ready. Run Connection Doctor for the next step."@)
        } else {
            Ok(())
        },
    }
}

pub fn launch_device_check(devices: &Vec<DeviceInfo>, serial: &str) -> (r: Result<(), String>)
    ensures
        unit_view(r) == launch_device_spec(device_views(devices@), serial@),
{
    let ghost dv = device_views(devices@);
    match find_device(devices, serial) {
        None => Err(String::from_str("Selected device is no longer connected.")),
        Some(k) => {
            assert(dv[k as int] == devices@[k as int]@);
            if !str_is(&devices[k].state, "device") {
                let mut e = lit_plus("Device is '", &devices[k].state);
                e.append("', not ready. Run Connection Doctor for the next step.");
                Err(e)
            } else {
                Ok(())
            }
        },
    }
}

/// "attempt N of M".
pub open spec fn attempt_of(index: nat, total: nat) -> Seq<char> {
    "attempt "@ + dec(index + 1) + " of "@ + dec(total)
}

/// What a launch that stayed running on attempt `index + 1` of `total` reports.
pub open spec fn started_message(config: LaunchConfig, index: nat, total: nat, remembered: bool) -> Seq<char> {
    let name = launch_name_spec(config.desktop_environment);
    if index > 0 {
        if config.mode@ == "camera"@ {
            "Camera opened after SCRCPY Studio automatically found a safer working combination on "@
                + attempt_of(index, total) + "."@
        } else if config.mode@ == "desktop"@ {
            name + " recovered automatically on "@ + attempt_of(index, total)
                + " using a safer capture configuration."@
        } else if remembered {
            "Session recovered on "@ + attempt_of(index, total)
                + ". This working profile is now remembered for this device."@
        } else {
            "Session started after SCRCPY Studio automatically recovered on "@ + attempt_of(
                index,
                total,
            ) + "."@
        }
    } else if config.mode@ == "camera"@ {
        "Camera opened with the selected smart camera profile."@
    } else if config.mode@ == "desktop"@ {
        name
            + " opened. The Desktop Diagnostics log records the exact command and observed Android display state."@
    } else {
        "Session started with the selected smart profile."@
    }
}

fn attempt_text(index: usize, total: usize) -> (r: String)
    requires
        index < total,
    ensures
        r@ == attempt_of(index as nat, total as nat),
{
    let mut r = String::from_str("attempt ");
    r.append(u64_text(index as u64 + 1).as_str());
    r.append(" of ");
    r.append(u64_text(total as u64).as_str());
    r
}

fn started_message_exec(config: &LaunchConfig, index: usize, total: usize, remembered: bool) -> (r:
    String)
    requires
        index < total,
    ensures
        r@ == started_message(*config, index as nat, total as nat, remembered),
{
    let name = desktop_launch_name(config);
    let camera = str_is(&config.mode, "camera");
    let desktop = str_is(&config.mode, "desktop");
    if index > 0 {
        let a = attempt_text(index, total);
        if camera {
            let mut m = String::from_str(
                "Camera opened after SCRCPY Studio automatically found a safer working combination on ",
            );
            m.append(a.as_str());
            m.append(".");
            m
        } else if desktop {
            let mut m = String::from_str(name);
            m.append(" recovered automatically on ");
            m.append(a.as_str());
            m.append(" using a safer capture configuration.");
            m
        } else if remembered {
            let mut m = String::from_str("Session recovered on ");
            m.append(a.as_str());
            m.append(". This working profile is now remembered for this device.");
            m
        } else {
            let mut m = String::from_str(
                "Session started after SCRCPY Studio automatically recovered on ",
            );
            m.append(a.as_str());
            m.append(".");
            m
        }
    } else if camera {
        String::from_str("Camera opened with the selected smart camera profile.")
    } else if desktop {
        let mut m = String::from_str(name);
        m.append(
            " opened. The Desktop Diagnostics log records the exact command and observed Android display state.",
        );
        m
    } else {
        String::from_str("Session started with the selected smart profile.")
    }
}

/// What a launch does once variant `index` of its `total` variants was tried.
pub enum LaunchStep {
    /// The variant stayed running: the launch succeeded with it.
    Started,
    /// The variant exited: the variant with this index is tried next.
    Next(usize),
    /// The last variant exited too: the launch is reported as exhausted.
    Exhausted,
}

/// The variants are tried in order, and the first that stays running ends the launch.
pub fn launch_step(index: usize, total: usize, started: bool) -> (r: LaunchStep)
    requires
        index < total,
    ensures
        started ==> r is Started,
        !started && index + 1 < total ==> r == LaunchStep::Next((index + 1) as usize),
        !started && index + 1 == total ==> r is Exhausted,
{
    if started {
        LaunchStep::Started
    } else if index + 1 < total {
        LaunchStep::Next(index + 1)
    } else {
        LaunchStep::Exhausted
    }
}

/// What a launch reports when variant `index` (of `total`) stayed running. `preview` is the
/// command line that started it, `remembered` whether its profile was saved.
pub fn launch_started(
    config: &LaunchConfig,
    index: usize,
    total: usize,
    preview: String,
    recording: Option<String>,
    diagnostics: Option<DesktopDiagnostics>,
    remembered: bool,
) -> (r: LaunchResult)
    requires
        index < total,
    ensures
        r.started,
        r.fallback_used == (index > 0),
        r.attempts == index + 1,
        r.command_preview@ == preview@,
        opt_view(r.recording_path) == opt_view(recording),
        r.message@ == started_message(*config, index as nat, total as nat, remembered),
        r.desktop_diagnostics == diagnostics,
{
    LaunchResult {
        started: true,
        fallback_used: index > 0,
        attempts: index + 1,
        command_preview: preview,
        recording_path: recording,
        message: started_message_exec(config, index, total, remembered),
        desktop_diagnostics: diagnostics,
    }
}

/// The line that explains why Desktop Mode stopped: the last non-blank output line, else the
/// exit result, trimmed.
pub open spec fn stop_detail(d: DesktopDiagnostics) -> Seq<char> {
    trim(
        match last_nonblank(lines(d.scrcpy_output@)) {
            Some(l) => l,
            None => d.exit_result@,
        },
    )
}

/// What a Desktop Mode launch reports when no variant stayed running.
pub open spec fn desktop_failed_message(config: LaunchConfig, total: nat, d: DesktopDiagnostics) -> Seq<
    char,
> {
    launch_name_spec(config.desktop_environment) + " did not stay running after "@ + dec(total)
        + " attempts: "@ + stop_detail(d)
        + ". Open Desktop Diagnostics for the complete command, output, and device evidence."@
}

pub open spec fn exhausted_message(total: nat) -> Seq<char> {
    "scrcpy exited immediately after "@ + dec(total)
        + " smart attempts. Open Connection Doctor and verify the device/runtime."@
}

/// The outcome when none of `total` variants stayed running.
pub open spec fn exhausted_spec(
    config: LaunchConfig,
    total: nat,
    diagnostics: Option<DesktopDiagnostics>,
    recording: Option<Seq<char>>,
    r: Result<LaunchResult, String>,
) -> bool {
    if config.mode@ != "desktop"@ {
        match r {
            Err(e) => e@ == exhausted_message(total),
            Ok(_) => false,
        }
    } else {
        match r {
            Err(_) => false,
            Ok(res) => match res.desktop_diagnostics {
                None => false,
                Some(d) => {
                    &&& !res.started
                    &&& res.fallback_used == (total > 1)
                    &&& res.attempts == total
                    &&& opt_view(res.recording_path) == recording
                    &&& match diagnostics {
                        Some(x) => d == x,
                        None => d.is_fresh(),
                    }
                    &&& res.command_preview@ == d.command@
                    &&& res.message@ == desktop_failed_message(config, total, d)
                },
            },
        }
    }
}

/// What a launch reports when none of its `total` variants stayed running. Desktop Mode
/// reports the last launch's diagnostics (fresh ones when there were none); the other modes
/// fail.
pub fn launch_exhausted(
    config: &LaunchConfig,
    total: usize,
    diagnostics: Option<DesktopDiagnostics>,
    recording: Option<String>,
) -> (r: Result<LaunchResult, String>)
    ensures
        exhausted_spec(*config, total as nat, diagnostics, opt_view(recording), r),
{
    if !str_is(&config.mode, "desktop") {
        let mut e = String::from_str("scrcpy exited immediately after ");
        e.append(u64_text(total as u64).as_str());
        e.append(" smart attempts. Open Connection Doctor and verify the device/runtime.");
        return Err(e);
    }
    let d = match diagnostics {
        Some(d) => d,
        None => DesktopDiagnostics::default(),
    };
    let ls = lines_of(&chars_of(d.scrcpy_output.as_str()));
    let detail = match last_nonblank_exec(&ls) {
        Some(k) => trimmed(&ls[k]),
        None => trimmed(&chars_of(d.exit_result.as_str())),
    };
    let mut m = String::from_str(desktop_launch_name(config));
    m.append(" did not stay running after ");
    m.append(u64_text(total as u64).as_str());
    m.append(" attempts: ");
    m.append(string_of(&detail).as_str());
    m.append(". Open Desktop Diagnostics for the complete command, output, and device evidence.");
    let preview = d.command.clone();
    Ok(
        LaunchResult {
            started: false,
            fallback_used: total > 1,
            attempts: total,
            command_preview: preview,
            recording_path: recording,
            message: m,
            desktop_diagnostics: Some(d),
        },
    )
}

} // verus!
