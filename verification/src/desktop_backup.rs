//! Preparing and restoring Android's desktop developer settings, with the backup of the
//! values each phone had before.
use vstd::prelude::*;
use crate::desktop::{
    delete_global_setting, desktop_keys_spec, desktop_setting_keys, developer_settings_applied,
    diag_pairs, get_global_setting, put_global_setting, setting_value, settings_applied_spec,
    str_views,
};
use crate::devices::{device_index, find_device};
use crate::models::{
    device_views, DesktopExperienceResult, DesktopSettingDiagnostic, DeviceInfo, DeviceView,
};
use crate::text::{opt_view, str_is, strs};

verus! {

broadcast use vstd::string::group_string_axioms;

pub open spec fn unit_view(r: Result<(), String>) -> Result<(), Seq<char>> {
    match r {
        Ok(()) => Ok(()),
        Err(e) => Err(e@),
    }
}

/// Desktop settings are changed only on a listed, authorized phone.
pub open spec fn ready_device_spec(ds: Seq<DeviceView>, serial: Seq<char>) -> Result<(), Seq<char>> {
    match device_index(ds, serial) {
        None => Err("Selected device is no longer connected."@),
        Some(k) => if ds[k].state != "device"@ {
            Err("Authorize the device before changing Desktop settings."@)
        } else {
            Ok(())
        },
    }
}

pub fn ensure_ready_device(devices: &Vec<DeviceInfo>, serial: &str) -> (r: Result<(), String>)
    ensures
        unit_view(r) == ready_device_spec(device_views(devices@), serial@),
{
    let ghost dv = device_views(devices@);
    match find_device(devices, serial) {
        None => Err(String::from_str("Selected device is no longer connected.")),
        Some(k) => {
            assert(dv[k as int] == devices@[k as int]@);
            if !str_is(&devices[k].state, "device") {
                Err(String::from_str("Authorize the device before changing Desktop settings."))
            } else {
                Ok(())
            }
        },
    }
}

/// The `adb` arguments that restart a phone.
pub fn reboot_args(serial: &str) -> (r: Vec<String>)
    ensures
        strs(r@) == seq!["-s"@, serial@, "reboot"@],
{
    let mut v: Vec<String> = Vec::new();
    v.push(String::from_str("-s"));
    v.push(String::from_str(serial));
    v.push(String::from_str("reboot"));
    assert(strs(v@) =~= seq!["-s"@, serial@, "reboot"@]);
    v
}

/// Whether `adb reboot` succeeded; `status` is the text of its exit status.
pub fn reboot_device(success: bool, status: &str) -> (r: Result<(), String>)
    ensures
        unit_view(r) == (if success {
            Ok(())
        } else {
            Err("ADB reboot exited with "@ + status@)
        }),
{
    if success {
        Ok(())
    } else {
        let mut e = String::from_str("ADB reboot exited with ");
        e.append(status);
        Err(e)
    }
}

// ---------------------------------------------------------------------------
// The backup store
// ---------------------------------------------------------------------------

/// The values a phone's desktop settings had before they were first changed, keyed by the
/// phone's stable key (see `stable_device_key`).
pub struct DeviceSettingsBackup {
    pub device_key: String,
    pub settings: Vec<DesktopSettingDiagnostic>,
}

/// The backups of all phones; no phone has two.
pub struct DesktopBackupStore {
    pub devices: Vec<DeviceSettingsBackup>,
}

/// A phone's backup as plain values.
pub type BackupEntry = (Seq<char>, Seq<(Seq<char>, Option<Seq<char>>)>);

pub open spec fn entries(v: Seq<DeviceSettingsBackup>) -> Seq<BackupEntry> {
    v.map_values(|b: DeviceSettingsBackup| (b.device_key@, diag_pairs(b.settings@)))
}

pub open spec fn keys_unique(e: Seq<BackupEntry>) -> bool {
    forall|i: int, j: int| 0 <= i < j < e.len() ==> (#[trigger] e[i]).0 != (#[trigger] e[j]).0
}

/// The store holds at most one backup per phone.
pub open spec fn store_wf(store: DesktopBackupStore) -> bool {
    keys_unique(entries(store.devices@))
}

pub open spec fn has_backup(e: Seq<BackupEntry>, key: Seq<char>) -> bool {
    exists|i: int| 0 <= i < e.len() && (#[trigger] e[i]).0 == key
}

/// The backed-up settings of a phone.
pub open spec fn backup_of(e: Seq<BackupEntry>, key: Seq<char>) -> Option<Seq<(Seq<char>, Option<Seq<char>>)>>
    decreases e.len(),
{
    if e.len() == 0 {
        None
    } else if e[0].0 == key {
        Some(e[0].1)
    } else {
        backup_of(e.drop_first(), key)
    }
}

proof fn lemma_backup_of(e: Seq<BackupEntry>, key: Seq<char>)
    ensures
        backup_of(e, key) is Some <==> has_backup(e, key),
        has_backup(e, key) ==> exists|i: int|
            0 <= i < e.len() && (#[trigger] e[i]).0 == key && backup_of(e, key) == Some(e[i].1),
    decreases e.len(),
{
    if e.len() > 0 {
        lemma_backup_of(e.drop_first(), key);
        if e[0].0 != key {
            if has_backup(e, key) {
                let i = choose|i: int| 0 <= i < e.len() && (#[trigger] e[i]).0 == key;
                assert(e.drop_first()[i - 1] == e[i]);
            }
            if has_backup(e.drop_first(), key) {
                let i = choose|i: int| 0 <= i < e.drop_first().len() && (#[trigger] e.drop_first()[i]).0
                    == key && backup_of(e.drop_first(), key) == Some(e.drop_first()[i].1);
                assert(e[i + 1] == e.drop_first()[i]);
            }
        }
    }
}

fn find_backup(devices: &Vec<DeviceSettingsBackup>, key: &str) -> (r: Option<usize>)
    ensures
        r matches Some(k) ==> k < devices@.len() && entries(devices@)[k as int].0 == key@
            && backup_of(entries(devices@), key@) == Some(entries(devices@)[k as int].1),
        r is None ==> !has_backup(entries(devices@), key@),
{
    let ghost ev = entries(devices@);
    let mut i: usize = 0;
    assert(ev.skip(0) =~= ev);
    while i < devices.len()
        invariant
            i <= devices@.len(),
            ev == entries(devices@),
            forall|j: int| 0 <= j < i ==> (#[trigger] ev[j]).0 != key@,
            backup_of(ev, key@) == backup_of(ev.skip(i as int), key@),
        decreases devices@.len() - i,
    {
        assert(ev[i as int].0 == devices@[i as int].device_key@);
        assert(ev.skip(i as int)[0] == ev[i as int]);
        if str_is(&devices[i].device_key, key) {
            return Some(i);
        }
        assert(ev.skip(i as int).drop_first() =~= ev.skip(i + 1 as int));
        i += 1;
    }
    None
}

/// Whether the store holds a backup for the phone.
pub fn backup_available(store: &DesktopBackupStore, device_key: &str) -> (b: bool)
    ensures
        b == has_backup(entries(store.devices@), device_key@),
{
    find_backup(&store.devices, device_key).is_some()
}

/// The store after keeping the settings of a phone that has no backup yet; a backup that
/// exists is never replaced.
pub open spec fn saved_spec(e: Seq<BackupEntry>, key: Seq<char>, settings: Seq<(Seq<char>, Option<Seq<char>>)>) -> Seq<
    BackupEntry,
> {
    if has_backup(e, key) {
        e
    } else {
        e.push((key, settings))
    }
}

/// The settings a backup keeps for a phone running API `sdk`: each key of
/// `desktop_setting_keys(sdk)`, in order, with the value that `outputs[i]`, what
/// `settings get global` printed for it, reads as (`None` for an unset setting).
pub open spec fn backup_settings_spec(sdk: u32, outputs: Seq<Seq<char>>) -> Seq<
    (Seq<char>, Option<Seq<char>>),
> {
    Seq::new(
        desktop_keys_spec(sdk).len(),
        |i: int| (desktop_keys_spec(sdk)[i], setting_value(outputs[i])),
    )
}

/// Keeps the desktop settings of a phone running API `sdk` that has no backup yet; a backup
/// that exists is never replaced. `outputs[i]` is what `settings get global` printed for the
/// `i`-th key of `desktop_setting_keys(sdk)`.
pub fn save_backup_if_missing(
    store: &mut DesktopBackupStore,
    device_key: &str,
    sdk: u32,
    outputs: &Vec<String>,
)
    requires
        outputs@.len() == desktop_keys_spec(sdk).len(),
    ensures
        entries(final(store).devices@) == saved_spec(
            entries(old(store).devices@),
            device_key@,
            backup_settings_spec(sdk, strs(outputs@)),
        ),
        store_wf(*old(store)) ==> store_wf(*final(store)),
{
    let ghost want = backup_settings_spec(sdk, strs(outputs@));
    proof {
        if store_wf(*store) {
            lemma_save_backup(entries(store.devices@), device_key@, want);
        }
    }
    if find_backup(&store.devices, device_key).is_none() {
        let keys = desktop_setting_keys(sdk);
        let mut settings: Vec<DesktopSettingDiagnostic> = Vec::new();
        let mut i: usize = 0;
        while i < keys.len()
            invariant
                i <= keys@.len() == outputs@.len(),
                str_views(keys@) == desktop_keys_spec(sdk),
                want == backup_settings_spec(sdk, strs(outputs@)),
                diag_pairs(settings@) =~= want.take(i as int),
            decreases keys@.len() - i,
        {
            let d = DesktopSettingDiagnostic {
                key: String::from_str(keys[i]),
                value: get_global_setting(outputs[i].as_str()),
            };
            let ghost b = diag_pairs(settings@);
            settings.push(d);
            assert(str_views(keys@)[i as int] == keys@[i as int]@);
            assert(strs(outputs@)[i as int] == outputs@[i as int]@);
            assert(diag_pairs(settings@) =~= b.push((d.key@, opt_view(d.value))));
            i += 1;
        }
        assert(want.take(keys@.len() as int) =~= want);
        let ghost before = entries(store.devices@);
        let b = DeviceSettingsBackup { device_key: String::from_str(device_key), settings };
        store.devices.push(b);
        assert(entries(store.devices@) =~= before.push((device_key@, diag_pairs(b.settings@))));
    }
}

/// The store without the phone's backup.
pub open spec fn without_backup(e: Seq<BackupEntry>, key: Seq<char>) -> Seq<BackupEntry>
    decreases e.len(),
{
    if e.len() == 0 {
        e
    } else if e.last().0 == key {
        without_backup(e.drop_last(), key)
    } else {
        without_backup(e.drop_last(), key).push(e.last())
    }
}

/// Drops the phone's backup once its settings were restored.
pub fn forget_backup(store: &mut DesktopBackupStore, device_key: &str)
    ensures
        entries(final(store).devices@) == without_backup(entries(old(store).devices@), device_key@),
        store_wf(*old(store)) ==> store_wf(*final(store)),
{
    proof {
        lemma_forget_backup(entries(store.devices@), device_key@);
    }
    let mut devices: Vec<DeviceSettingsBackup> = Vec::new();
    core::mem::swap(&mut devices, &mut store.devices);
    let ghost ev = entries(devices@);
    let mut kept: Vec<DeviceSettingsBackup> = Vec::new();
    let mut rest = devices;
    let mut i: usize = 0;
    let n = rest.len();
    while rest.len() > 0
        invariant
            i + rest@.len() == ev.len() == n,
            entries(rest@) == ev.skip(i as int),
            entries(kept@) == without_backup(ev.take(i as int), device_key@),
        decreases rest@.len(),
    {
        let ghost rv = rest@;
        let b = rest.remove(0);
        assert(rest@ =~= rv.drop_first());
        assert(entries(rest@) =~= entries(rv).drop_first());
        assert(ev.skip(i as int).drop_first() =~= ev.skip(i + 1 as int));
        assert(entries(rv)[0] == (b.device_key@, diag_pairs(b.settings@)));
        assert(ev[i as int] == entries(rv)[0]);
        assert(ev.take(i + 1 as int).drop_last() =~= ev.take(i as int));
        if !str_is(&b.device_key, device_key) {
            let ghost k0 = entries(kept@);
            kept.push(b);
            assert(entries(kept@) =~= k0.push(ev[i as int]));
        }
        i += 1;
    }
    assert(ev.take(n as int) =~= ev);
    store.devices = kept;
}

/// Saving a backup keeps the store holding at most one backup per phone, and afterwards the
/// phone has a backup; one that existed before is kept as it was.
pub proof fn lemma_save_backup(
    e: Seq<BackupEntry>,
    key: Seq<char>,
    settings: Seq<(Seq<char>, Option<Seq<char>>)>,
)
    requires
        keys_unique(e),
    ensures
        keys_unique(saved_spec(e, key, settings)),
        has_backup(saved_spec(e, key, settings), key),
        has_backup(e, key) ==> backup_of(saved_spec(e, key, settings), key) == backup_of(e, key),
        !has_backup(e, key) ==> backup_of(saved_spec(e, key, settings), key) == Some(settings),
        saved_spec(saved_spec(e, key, settings), key, settings) == saved_spec(e, key, settings),
{
    let s = saved_spec(e, key, settings);
    if !has_backup(e, key) {
        assert(s[e.len() as int].0 == key);
        lemma_backup_of(e, key);
        lemma_backup_of_suffix(e, key, settings);
    }
}

proof fn lemma_backup_of_suffix(e: Seq<BackupEntry>, key: Seq<char>, settings: Seq<(Seq<char>, Option<Seq<char>>)>)
    requires
        forall|j: int| 0 <= j < e.len() ==> (#[trigger] e[j]).0 != key,
    ensures
        backup_of(e.push((key, settings)), key) == Some(settings),
    decreases e.len(),
{
    if e.len() > 0 {
        assert(e.push((key, settings)).drop_first() =~= e.drop_first().push((key, settings)));
        assert(e[0].0 != key);
        lemma_backup_of_suffix(e.drop_first(), key, settings);
    }
}

/// After a phone's backup is dropped the store holds none for it, holds no backup it did
/// not hold before, and still holds at most one backup per phone.
pub proof fn lemma_forget_backup(e: Seq<BackupEntry>, key: Seq<char>)
    ensures
        !has_backup(without_backup(e, key), key),
        forall|j: int|
            0 <= j < without_backup(e, key).len() ==> #[trigger] e.contains(
                without_backup(e, key)[j],
            ),
        keys_unique(e) ==> keys_unique(without_backup(e, key)),
    decreases e.len(),
{
    if e.len() > 0 {
        let d = e.drop_last();
        lemma_forget_backup(d, key);
        let w = without_backup(d, key);
        assert forall|j: int| 0 <= j < w.len() implies e.contains(#[trigger] w[j]) by {
            assert(d.contains(w[j]));
            let i = choose|i: int| 0 <= i < d.len() && d[i] == w[j];
            assert(e[i] == w[j]);
        }
        if keys_unique(e) {
            assert(keys_unique(d)) by {
                assert forall|a: int, b: int| 0 <= a < b < d.len() implies (#[trigger] d[a]).0 != (
                #[trigger] d[b]).0 by {
                    assert(d[a] == e[a] && d[b] == e[b]);
                }
            }
            if e.last().0 != key {
                let w2 = w.push(e.last());
                assert forall|a: int, b: int| 0 <= a < b < w2.len() implies (#[trigger] w2[a]).0 != (
                #[trigger] w2[b]).0 by {
                    if b == w.len() {
                        assert(d.contains(w[a]));
                        let i = choose|i: int| 0 <= i < d.len() && d[i] == w[a];
                        assert(e[i] == w[a]);
                        assert(e[e.len() - 1] == e.last());
                    } else {
                        assert(w2[a] == w[a] && w2[b] == w[b]);
                    }
                }
            }
        }
    }
}

// ---------------------------------------------------------------------------
// Preparing and restoring
// ---------------------------------------------------------------------------

pub open spec fn cmds(v: Seq<Vec<String>>) -> Seq<Seq<Seq<char>>> {
    v.map_values(|c: Vec<String>| strs(c@))
}

pub open spec fn result_cmds(r: Result<Vec<Vec<String>>, String>) -> Result<Seq<Seq<Seq<char>>>, Seq<char>> {
    match r {
        Ok(v) => Ok(cmds(v@)),
        Err(e) => Err(e@),
    }
}

pub open spec fn put_one(key: Seq<char>) -> Seq<Seq<char>> {
    seq!["settings"@, "put"@, "global"@, key, "1"@]
}

/// The commands that prepare desktop windowing: every desktop setting set to `1`, on
/// Android 10 or newer.
pub open spec fn enable_commands_spec(sdk: u32) -> Result<Seq<Seq<Seq<char>>>, Seq<char>> {
    if sdk < 29 {
        Err(
            "Android Desktop Windowing preparation requires Android 10 or newer. Generic scrcpy Virtual Display may still be used without changing these settings."@,
        )
    } else {
        Ok(desktop_keys_spec(sdk).map_values(|k: Seq<char>| put_one(k)))
    }
}

pub fn desktop_enable_commands(sdk: u32) -> (r: Result<Vec<Vec<String>>, String>)
    ensures
        result_cmds(r) == enable_commands_spec(sdk),
{
    if sdk < 29 {
        return Err(
            String::from_str(
                "Android Desktop Windowing preparation requires Android 10 or newer. Generic scrcpy Virtual Display may still be used without changing these settings.",
            ),
        );
    }
    let keys = desktop_setting_keys(sdk);
    let ghost kv = str_views(keys@);
    let mut r: Vec<Vec<String>> = Vec::new();
    let mut i: usize = 0;
    while i < keys.len()
        invariant
            i <= keys@.len(),
            kv == str_views(keys@),
            kv == desktop_keys_spec(sdk),
            cmds(r@) == kv.take(i as int).map_values(|k: Seq<char>| put_one(k)),
        decreases keys@.len() - i,
    {
        let c = put_global_setting(keys[i], "1");
        let ghost b = cmds(r@);
        r.push(c);
        assert(kv[i as int] == keys@[i as int]@);
        assert(cmds(r@) =~= b.push(put_one(kv[i as int])));
        assert(kv.take(i + 1 as int).map_values(|k: Seq<char>| put_one(k)) =~= kv.take(
            i as int,
        ).map_values(|k: Seq<char>| put_one(k)).push(put_one(kv[i as int])));
        i += 1;
    }
    assert(kv.take(keys@.len() as int) =~= kv);
    Ok(r)
}

/// A result of preparing or restoring as plain values.
pub struct ExperienceView {
    pub prepared: bool,
    pub backup_available: bool,
    pub reboot_started: bool,
    pub message: Seq<char>,
}

impl View for DesktopExperienceResult {
    type V = ExperienceView;

    open spec fn view(&self) -> ExperienceView {
        ExperienceView {
            prepared: self.prepared,
            backup_available: self.backup_available,
            reboot_started: self.reboot_started,
            message: self.message@,
        }
    }
}

pub open spec fn prepared_message() -> Seq<char> {
    "Android freeform, resizable-window, non-resizable multi-window, and secondary-display desktop settings were applied. The phone is restarting; SCRCPY Studio will reconnect and verify the created display's real windowing mode. This does not enable Samsung DeX."@
}

pub open spec fn experience_view(r: Result<DesktopExperienceResult, String>) -> Result<ExperienceView, Seq<char>> {
    match r {
        Ok(v) => Ok(v@),
        Err(e) => Err(e@),
    }
}

/// What preparing reports once the settings were read back (before the phone restarts):
/// an error unless every setting it wrote reads enabled.
pub open spec fn enable_result_spec(settings: Seq<(Seq<char>, Option<Seq<char>>)>, sdk: u32) -> Result<
    ExperienceView,
    Seq<char>,
> {
    if !settings_applied_spec(settings, sdk) {
        Err("Android did not retain all requested desktop developer settings."@)
    } else {
        Ok(
            ExperienceView {
                prepared: false,
                backup_available: true,
                reboot_started: true,
                message: prepared_message(),
            },
        )
    }
}

pub fn desktop_enable_result(settings: &Vec<DesktopSettingDiagnostic>, sdk: u32) -> (r: Result<
    DesktopExperienceResult,
    String,
>)
    ensures
        experience_view(r) == enable_result_spec(diag_pairs(settings@), sdk),
{
    if !developer_settings_applied(settings, sdk) {
        return Err(String::from_str("Android did not retain all requested desktop developer settings."));
    }
    Ok(
        DesktopExperienceResult {
            prepared: false,
            backup_available: true,
            reboot_started: true,
            message: String::from_str(
                "Android freeform, resizable-window, non-resizable multi-window, and secondary-display desktop settings were applied. The phone is restarting; SCRCPY Studio will reconnect and verify the created display's real windowing mode. This does not enable Samsung DeX.",
            ),
        },
    )
}

/// The command that gives one setting back its saved value.
pub open spec fn restore_one(s: (Seq<char>, Option<Seq<char>>)) -> Seq<Seq<char>> {
    match s.1 {
        Some(v) => seq!["settings"@, "put"@, "global"@, s.0, v],
        None => seq!["settings"@, "delete"@, "global"@, s.0],
    }
}

/// The commands that restore a phone's saved settings, or why there is nothing to restore.
pub open spec fn restore_commands_spec(e: Seq<BackupEntry>, key: Seq<char>) -> Result<Seq<Seq<Seq<char>>>, Seq<char>> {
    match backup_of(e, key) {
        None => Err("No original Desktop developer settings backup exists for this phone."@),
        Some(settings) => Ok(settings.map_values(|s: (Seq<char>, Option<Seq<char>>)| restore_one(s))),
    }
}

pub fn desktop_restore_commands(store: &DesktopBackupStore, device_key: &str) -> (r: Result<
    Vec<Vec<String>>,
    String,
>)
    ensures
        result_cmds(r) == restore_commands_spec(entries(store.devices@), device_key@),
{
    let k = match find_backup(&store.devices, device_key) {
        None => {
            proof {
                lemma_backup_of(entries(store.devices@), device_key@);
            }
            return Err(
                String::from_str("No original Desktop developer settings backup exists for this phone."),
            );
        },
        Some(k) => k,
    };
    let settings = &store.devices[k].settings;
    let ghost sv = diag_pairs(settings@);
    assert(entries(store.devices@)[k as int].1 == sv);
    let mut r: Vec<Vec<String>> = Vec::new();
    let mut i: usize = 0;
    while i < settings.len()
        invariant
            i <= settings@.len(),
            sv == diag_pairs(settings@),
            cmds(r@) == sv.take(i as int).map_values(|s: (Seq<char>, Option<Seq<char>>)| restore_one(s)),
        decreases settings@.len() - i,
    {
        let s = &settings[i];
        let c = match &s.value {
            Some(v) => put_global_setting(s.key.as_str(), v.as_str()),
            None => delete_global_setting(s.key.as_str()),
        };
        let ghost b = cmds(r@);
        r.push(c);
        assert(sv[i as int] == (s.key@, opt_view(s.value)));
        assert(cmds(r@) =~= b.push(restore_one(sv[i as int])));
        assert(sv.take(i + 1 as int).map_values(|s: (Seq<char>, Option<Seq<char>>)| restore_one(s)) =~= sv.take(
            i as int,
        ).map_values(|s: (Seq<char>, Option<Seq<char>>)| restore_one(s)).push(restore_one(sv[i as int])));
        i += 1;
    }
    assert(sv.take(settings@.len() as int) =~= sv);
    Ok(r)
}

/// What restoring reports once the settings were written back (before the phone restarts).
pub fn desktop_restore_result() -> (r: DesktopExperienceResult)
    ensures
        r@ == (ExperienceView {
            prepared: false,
            backup_available: false,
            reboot_started: true,
            message: "Original Android desktop developer settings restored. The phone is restarting to finish restoring its previous behavior."@,
        }),
{
    DesktopExperienceResult {
        prepared: false,
        backup_available: false,
        reboot_started: true,
        message: String::from_str(
            "Original Android desktop developer settings restored. The phone is restarting to finish restoring its previous behavior.",
        ),
    }
}

/// Restoring right after a backup was saved writes back exactly the saved values, in the
/// order they were read.
pub proof fn lemma_restore_after_save(
    e: Seq<BackupEntry>,
    key: Seq<char>,
    settings: Seq<(Seq<char>, Option<Seq<char>>)>,
)
    requires
        keys_unique(e),
        !has_backup(e, key),
    ensures
        restore_commands_spec(saved_spec(e, key, settings), key) == Ok::<Seq<Seq<Seq<char>>>, Seq<char>>(
            settings.map_values(|s: (Seq<char>, Option<Seq<char>>)| restore_one(s)),
        ),
{
    lemma_save_backup(e, key, settings);
}

/// Restoring after the desktop settings of a phone running API `sdk` were backed up, with
/// no backup for it before, puts back each key of `desktop_setting_keys(sdk)`, in order: a
/// setting that had a value gets that value again and one that was unset is deleted.
pub proof fn lemma_restore_after_enable(
    e: Seq<BackupEntry>,
    key: Seq<char>,
    sdk: u32,
    outputs: Seq<Seq<char>>,
)
    requires
        keys_unique(e),
        !has_backup(e, key),
        outputs.len() == desktop_keys_spec(sdk).len(),
    ensures
        restore_commands_spec(saved_spec(e, key, backup_settings_spec(sdk, outputs)), key) == Ok::<
            Seq<Seq<Seq<char>>>,
            Seq<char>,
        >(
            Seq::new(
                desktop_keys_spec(sdk).len(),
                |i: int| restore_one((desktop_keys_spec(sdk)[i], setting_value(outputs[i]))),
            ),
        ),
{
    let settings = backup_settings_spec(sdk, outputs);
    lemma_restore_after_save(e, key, settings);
    assert(settings.map_values(|s: (Seq<char>, Option<Seq<char>>)| restore_one(s)) =~= Seq::new(
        desktop_keys_spec(sdk).len(),
        |i: int| restore_one((desktop_keys_spec(sdk)[i], setting_value(outputs[i]))),
    ));
}

} // verus!
