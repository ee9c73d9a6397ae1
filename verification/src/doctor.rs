//! The connection doctor: what is missing or needs the user's attention.
use vstd::prelude::*;
use crate::models::{device_views, DeviceInfo, DeviceView, DoctorFinding};
use crate::runtime::HostOs;
use crate::text::{copy_string, lit_plus, opt_view, str_is, strs};

verus! {

/// A finding as plain values.
pub struct FindingView {
    pub level: Seq<char>,
    pub title: Seq<char>,
    pub detail: Seq<char>,
    pub action: Option<Seq<char>>,
}

impl View for DoctorFinding {
    type V = FindingView;

    open spec fn view(&self) -> FindingView {
        FindingView {
            level: self.level@,
            title: self.title@,
            detail: self.detail@,
            action: opt_view(self.action),
        }
    }
}

pub open spec fn finding_views(v: Seq<DoctorFinding>) -> Seq<FindingView> {
    v.map_values(|f: DoctorFinding| f@)
}

pub open spec fn fv(level: Seq<char>, title: Seq<char>, detail: Seq<char>, action: Option<Seq<char>>) -> FindingView {
    FindingView { level, title, detail, action }
}

pub fn finding(level: &str, title: &str, detail: String, action: Option<&str>) -> (f: DoctorFinding)
    ensures
        f@ == fv(
            level@,
            title@,
            detail@,
            match action {
                Some(a) => Some(a@),
                None => None,
            },
        ),
{
    DoctorFinding {
        level: String::from_str(level),
        title: String::from_str(title),
        detail: detail,
        action: match action {
            Some(a) => Some(String::from_str(a)),
            None => None,
        },
    }
}

/// What identifies a physical phone across transports: product, model and device name, else
/// the serial.
pub open spec fn physical_key_spec(d: DeviceView) -> Seq<char> {
    match (d.product, d.model, d.device) {
        (Some(p), Some(m), Some(c)) => p + "|"@ + m + "|"@ + c,
        _ => d.serial,
    }
}

pub fn physical_key(device: &DeviceInfo) -> (r: String)
    ensures
        r@ == physical_key_spec(device@),
{
    match (&device.product, &device.model, &device.device) {
        (Some(p), Some(m), Some(c)) => {
            let mut r = copy_string(p);
            r.append("|");
            r.append(m.as_str());
            r.append("|");
            r.append(c.as_str());
            r
        },
        _ => copy_string(&device.serial),
    }
}

pub open spec fn adb_action_spec(os: HostOs) -> Seq<char> {
    match os {
        HostOs::Windows => "Click Install official runtime to add the verified Windows scrcpy package with ADB."@,
        HostOs::Linux => "Install the ADB package from your Linux distribution (for example, adb on Debian/Ubuntu or android-tools on Fedora)."@,
        HostOs::MacOs | HostOs::Other => "Install Android Platform Tools and reopen SCRCPY Studio."@,
    }
}

pub fn adb_install_action(os: HostOs) -> (r: &'static str)
    ensures
        r@ == adb_action_spec(os),
{
    match os {
        HostOs::Windows => "Click Install official runtime to add the verified Windows scrcpy package with ADB.",
        HostOs::Linux => "Install the ADB package from your Linux distribution (for example, adb on Debian/Ubuntu or android-tools on Fedora).",
        HostOs::MacOs | HostOs::Other => "Install Android Platform Tools and reopen SCRCPY Studio.",
    }
}

pub open spec fn scrcpy_action_spec(os: HostOs) -> Seq<char> {
    match os {
        HostOs::Windows | HostOs::Linux => "Click Install official runtime. SCRCPY Studio downloads the latest official Genymobile release and verifies its SHA-256 checksum."@,
        HostOs::MacOs | HostOs::Other => "Install official scrcpy and reopen SCRCPY Studio."@,
    }
}

pub fn scrcpy_install_action(os: HostOs) -> (r: &'static str)
    ensures
        r@ == scrcpy_action_spec(os),
{
    match os {
        HostOs::Windows | HostOs::Linux => "Click Install official runtime. SCRCPY Studio downloads the latest official Genymobile release and verifies its SHA-256 checksum.",
        HostOs::MacOs | HostOs::Other => "Install official scrcpy and reopen SCRCPY Studio.",
    }
}

/// The finding for one device by its state.
pub open spec fn device_finding(d: DeviceView) -> FindingView {
    if d.state == "device"@ {
        fv(
            "ok"@,
            "Device authorized"@,
            match d.model {
                Some(m) => m,
                None => d.serial,
            } + " is ready for control."@,
            None,
        )
    } else if d.state == "unauthorized"@ {
        fv(
            "warning"@,
            "USB debugging approval needed"@,
            d.serial + " is connected but not authorized."@,
            Some("Unlock the phone and tap Allow on the USB debugging prompt."@),
        )
    } else if d.state == "offline"@ {
        fv(
            "warning"@,
            "Device offline"@,
            d.serial + " is visible to ADB but not responding."@,
            Some("Reconnect USB or restart Wireless debugging, then refresh."@),
        )
    } else {
        fv(
            "info"@,
            "Device needs attention"@,
            d.serial + " reports state '"@ + d.state + "'."@,
            Some("Reconnect the device and refresh."@),
        )
    }
}

pub open spec fn keys_of(ds: Seq<DeviceView>) -> Seq<Seq<char>> {
    ds.map_values(|d: DeviceView| physical_key_spec(d))
}

/// The devices whose physical key did not occur before them.
pub open spec fn first_per_phone(ds: Seq<DeviceView>) -> Seq<DeviceView>
    decreases ds.len(),
{
    if ds.len() == 0 {
        ds
    } else if keys_of(ds.drop_last()).contains(physical_key_spec(ds.last())) {
        first_per_phone(ds.drop_last())
    } else {
        first_per_phone(ds.drop_last()).push(ds.last())
    }
}

fn device_finding_exec(d: &DeviceInfo) -> (f: DoctorFinding)
    ensures
        f@ == device_finding(d@),
{
    if str_is(&d.state, "device") {
        let name = match &d.model {
            Some(m) => copy_string(m),
            None => copy_string(&d.serial),
        };
        let mut detail = name;
        detail.append(" is ready for control.");
        finding("ok", "Device authorized", detail, None)
    } else if str_is(&d.state, "unauthorized") {
        let mut detail = copy_string(&d.serial);
        detail.append(" is connected but not authorized.");
        finding(
            "warning",
            "USB debugging approval needed",
            detail,
            Some("Unlock the phone and tap Allow on the USB debugging prompt."),
        )
    } else if str_is(&d.state, "offline") {
        let mut detail = copy_string(&d.serial);
        detail.append(" is visible to ADB but not responding.");
        finding(
            "warning",
            "Device offline",
            detail,
            Some("Reconnect USB or restart Wireless debugging, then refresh."),
        )
    } else {
        let mut detail = copy_string(&d.serial);
        detail.append(" reports state '");
        detail.append(d.state.as_str());
        detail.append("'.");
        finding("info", "Device needs attention", detail, Some("Reconnect the device and refresh."))
    }
}

fn contains_key(seen: &Vec<String>, key: &String) -> (b: bool)
    ensures
        b == strs(seen@).contains(key@),
{
    let kc = crate::text::chars_of(key.as_str());
    let mut i: usize = 0;
    while i < seen.len()
        invariant
            i <= seen@.len(),
            kc@ == key@,
            forall|j: int| 0 <= j < i ==> strs(seen@)[j] != key@,
        decreases seen@.len() - i,
    {
        let c = crate::text::chars_of(seen[i].as_str());
        if crate::text::eq_chars(&c, &kc) {
            assert(strs(seen@)[i as int] == key@);
            return true;
        }
        i += 1;
    }
    false
}

/// One finding per physical phone, in list order.
pub open spec fn device_findings(ds: Seq<DeviceView>) -> Seq<FindingView> {
    first_per_phone(ds).map_values(|d: DeviceView| device_finding(d))
}

fn device_findings_exec(devices: &Vec<DeviceInfo>) -> (r: Vec<DoctorFinding>)
    ensures
        finding_views(r@) == device_findings(device_views(devices@)),
{
    let ghost dv = device_views(devices@);
    let mut r: Vec<DoctorFinding> = Vec::new();
    let mut seen: Vec<String> = Vec::new();
    let mut i: usize = 0;
    while i < devices.len()
        invariant
            i <= devices@.len(),
            dv == device_views(devices@),
            strs(seen@) == keys_of(dv.take(i as int)),
            finding_views(r@) == device_findings(dv.take(i as int)),
        decreases devices@.len() - i,
    {
        let ghost pre = dv.take(i as int);
        assert(dv.take(i + 1 as int).drop_last() =~= pre);
        assert(dv.take(i + 1 as int).last() == devices@[i as int]@);
        let key = physical_key(&devices[i]);
        if !contains_key(&seen, &key) {
            let f = device_finding_exec(&devices[i]);
            let ghost b = finding_views(r@);
            r.push(f);
            assert(finding_views(r@) =~= b.push(f@));
            assert(device_findings(dv.take(i + 1 as int)) =~= device_findings(pre).push(
                device_finding(devices@[i as int]@),
            ));
        }
        let ghost sb = strs(seen@);
        crate::text::push_str(&mut seen, key);
        assert(keys_of(dv.take(i + 1 as int)) =~= keys_of(pre).push(physical_key_spec(devices@[i as int]@)));
        i += 1;
    }
    assert(dv.take(devices@.len() as int) =~= dv);
    r
}

pub open spec fn tool_finding(found: Option<Seq<char>>, ok_title: Seq<char>, missing_title: Seq<char>, missing_detail: Seq<char>, action: Seq<char>) -> FindingView {
    match found {
        Some(path) => fv("ok"@, ok_title, "Using "@ + path, None),
        None => fv("error"@, missing_title, missing_detail, Some(action)),
    }
}

/// What the doctor reports, from the tools it found (as displayed paths) and, when ADB was
/// found, the result of listing devices.
pub open spec fn doctor_spec(
    adb: Option<Seq<char>>,
    scrcpy: Option<Seq<char>>,
    listing: Option<Result<Seq<DeviceView>, Seq<char>>>,
    os: HostOs,
) -> Seq<FindingView> {
    seq![
        tool_finding(adb, "ADB ready"@, "ADB missing"@, "SCRCPY Studio cannot detect Android devices without ADB."@, adb_action_spec(os)),
        tool_finding(scrcpy, "scrcpy ready"@, "scrcpy missing"@, "The mirroring engine is not available yet."@, scrcpy_action_spec(os)),
    ] + if adb is Some {
        match listing {
            Some(Ok(ds)) => if ds.len() == 0 {
                seq![fv("warning"@, "No phone detected"@, "ADB is working, but no Android device is visible."@, Some("Use a data-capable USB cable, enable USB debugging, then reconnect."@))]
            } else {
                device_findings(ds)
            },
            Some(Err(e)) => seq![fv("error"@, "ADB check failed"@, e, Some("Close other ADB tools, reconnect the phone, and refresh."@))],
            None => Seq::<FindingView>::empty(),
        }
    } else {
        Seq::<FindingView>::empty()
    }
}

pub open spec fn listing_view(l: Option<Result<Vec<DeviceInfo>, String>>) -> Option<Result<Seq<DeviceView>, Seq<char>>> {
    match l {
        Some(Ok(ds)) => Some(Ok(device_views(ds@))),
        Some(Err(e)) => Some(Err(e@)),
        None => None,
    }
}

/// `adb` and `scrcpy` are the displayed paths of the tools found; `listing` is the result of
/// listing devices, which is only read when ADB was found.
pub fn run_doctor(
    adb: Option<String>,
    scrcpy: Option<String>,
    listing: Option<Result<Vec<DeviceInfo>, String>>,
    os: HostOs,
) -> (r: Vec<DoctorFinding>)
    ensures
        finding_views(r@) == doctor_spec(opt_view(adb), opt_view(scrcpy), listing_view(listing), os),
{
    let ghost lv = listing_view(listing);
    let mut items: Vec<DoctorFinding> = Vec::new();
    let adb_found = adb.is_some();
    let f1 = match adb {
        Some(path) => finding("ok", "ADB ready", lit_plus("Using ", &path), None),
        None => finding(
            "error",
            "ADB missing",
            String::from_str("SCRCPY Studio cannot detect Android devices without ADB."),
            Some(adb_install_action(os)),
        ),
    };
    items.push(f1);
    let f2 = match scrcpy {
        Some(path) => finding("ok", "scrcpy ready", lit_plus("Using ", &path), None),
        None => finding(
            "error",
            "scrcpy missing",
            String::from_str("The mirroring engine is not available yet."),
            Some(scrcpy_install_action(os)),
        ),
    };
    items.push(f2);
    let ghost head = finding_views(items@);
    if adb_found {
        match listing {
            Some(Ok(devices)) => {
                if devices.len() == 0 {
                    items.push(
                        finding(
                            "warning",
                            "No phone detected",
                            String::from_str("ADB is working, but no Android device is visible."),
                            Some("Use a data-capable USB cable, enable USB debugging, then reconnect."),
                        ),
                    );
                } else {
                    let mut more = device_findings_exec(&devices);
                    let ghost mv = finding_views(more@);
                    items.append(&mut more);
                    assert(finding_views(items@) =~= head + mv);
                }
            },
            Some(Err(e)) => {
                items.push(
                    finding(
                        "error",
                        "ADB check failed",
                        e,
                        Some("Close other ADB tools, reconnect the phone, and refresh."),
                    ),
                );
            },
            None => {},
        }
    }
    assert(finding_views(items@) =~= doctor_spec(opt_view(adb), opt_view(scrcpy), lv, os));
    items
}

/// The doctor reports each physical phone once: the phones it reports have different keys,
/// each of them is listed, and every listed phone's key is among them.
pub proof fn lemma_one_finding_per_phone(ds: Seq<DeviceView>)
    ensures
        forall|i: int, j: int|
            0 <= i < j < first_per_phone(ds).len() ==> physical_key_spec(
                #[trigger] first_per_phone(ds)[i],
            ) != physical_key_spec(#[trigger] first_per_phone(ds)[j]),
        forall|i: int|
            0 <= i < first_per_phone(ds).len() ==> keys_of(ds).contains(
                physical_key_spec(#[trigger] first_per_phone(ds)[i]),
            ),
        forall|i: int|
            0 <= i < ds.len() ==> keys_of(first_per_phone(ds)).contains(
                physical_key_spec(#[trigger] ds[i]),
            ),
    decreases ds.len(),
{
    if ds.len() > 0 {
        let t = ds.drop_last();
        let x = ds.last();
        let f = first_per_phone(t);
        lemma_one_finding_per_phone(t);
        assert forall|i: int| 0 <= i < t.len() implies keys_of(ds).contains(
            #[trigger] keys_of(t)[i],
        ) by {
            assert(keys_of(ds)[i] == keys_of(t)[i]);
        }
        if keys_of(t).contains(physical_key_spec(x)) {
            assert(first_per_phone(ds) == f);
            assert forall|i: int| 0 <= i < ds.len() implies keys_of(f).contains(
                physical_key_spec(#[trigger] ds[i]),
            ) by {
                if i < t.len() {
                    assert(ds[i] == t[i]);
                } else {
                    let k = choose|k: int| 0 <= k < t.len() && keys_of(t)[k] == physical_key_spec(x);
                    assert(keys_of(t)[k] == physical_key_spec(t[k]));
                }
            }
            assert forall|i: int| 0 <= i < f.len() implies keys_of(ds).contains(
                physical_key_spec(#[trigger] f[i]),
            ) by {
                let k = choose|k: int| 0 <= k < t.len() && keys_of(t)[k] == physical_key_spec(f[i]);
                assert(keys_of(ds)[k] == keys_of(t)[k]);
            }
        } else {
            let g = f.push(x);
            assert(first_per_phone(ds) == g);
            assert forall|i: int| 0 <= i < f.len() implies physical_key_spec(#[trigger] f[i])
                != physical_key_spec(x) by {
                if physical_key_spec(f[i]) == physical_key_spec(x) {
                    assert(keys_of(t).contains(physical_key_spec(f[i])));
                }
            }
            assert forall|i: int, j: int| 0 <= i < j < g.len() implies physical_key_spec(
                #[trigger] g[i],
            ) != physical_key_spec(#[trigger] g[j]) by {
                if j < f.len() {
                    assert(g[i] == f[i] && g[j] == f[j]);
                } else {
                    assert(g[i] == f[i]);
                }
            }
            assert forall|i: int| 0 <= i < g.len() implies keys_of(ds).contains(
                physical_key_spec(#[trigger] g[i]),
            ) by {
                if i < f.len() {
                    assert(g[i] == f[i]);
                    let k = choose|k: int| 0 <= k < t.len() && keys_of(t)[k] == physical_key_spec(f[i]);
                    assert(keys_of(ds)[k] == keys_of(t)[k]);
                } else {
                    assert(keys_of(ds)[ds.len() - 1] == physical_key_spec(x));
                }
            }
            assert forall|i: int| 0 <= i < ds.len() implies keys_of(g).contains(
                physical_key_spec(#[trigger] ds[i]),
            ) by {
                if i < t.len() {
                    assert(ds[i] == t[i]);
                    let k = choose|k: int| 0 <= k < f.len() && keys_of(f)[k] == physical_key_spec(t[i]);
                    assert(keys_of(g)[k] == keys_of(f)[k]);
                } else {
                    assert(keys_of(g)[f.len() as int] == physical_key_spec(x));
                }
            }
        }
    }
}

} // verus!
