//! The device list of `adb devices -l`, device profiles and recommended settings.
use vstd::prelude::*;
use crate::models::{device_views, DeviceInfo, DeviceProfile, DeviceView, Recommendation};
use crate::number::parse_u32_chars;
use crate::preferences::LearnedProfile;
use crate::text::{
    first_some, lemma_first_some_at, lemma_first_some_none,
    chars_of, contains, contains_str, copy_range, copy_string, index_of, index_of_char, lines,
    lines_of, lower, opt_view, split_once, split_once_char, split_whitespace, split_ws,
    starts_with, starts_with_str, str_is, string_of, strs, to_lower, trim, trimmed, views,
    sep_fn, split, split_by, Sep,
};

verus! {

/// A serial names a wireless transport: `host:port` or an mDNS `_adb-tls-` service.
pub open spec fn wireless_serial(serial: Seq<char>) -> bool {
    index_of(serial, ':') is Some || contains(serial, "_adb-tls-"@)
}

pub fn is_wireless_serial(serial: &str) -> (b: bool)
    ensures
        b == wireless_serial(serial@),
{
    let s = chars_of(serial);
    index_of_char(&s, ':').is_some() || contains_str(&s, "_adb-tls-")
}

pub open spec fn kind_of(serial: Seq<char>) -> Seq<char> {
    if wireless_serial(serial) {
        "wireless"@
    } else {
        "usb"@
    }
}

/// The value of the last `key:value` word with that key.
pub open spec fn field(words: Seq<Seq<char>>, key: Seq<char>) -> Option<Seq<char>>
    decreases words.len(),
{
    if words.len() == 0 {
        None
    } else {
        match split_once(words.last(), ':') {
            Some((k, v)) => if k == key {
                Some(v)
            } else {
                field(words.drop_last(), key)
            },
            None => field(words.drop_last(), key),
        }
    }
}

/// One device line: serial, state (else `unknown`) and the `model:`, `product:`, `device:`
/// fields of the rest.
pub open spec fn device_line(line: Seq<char>) -> Option<DeviceView> {
    let t = trim(line);
    if t.len() == 0 || starts_with(t, "*"@) {
        None
    } else {
        let words = split_ws(t);
        if words.len() == 0 {
            None
        } else {
            let rest = if words.len() >= 2 {
                words.skip(2)
            } else {
                Seq::<Seq<char>>::empty()
            };
            Some(
                DeviceView {
                    serial: words[0],
                    state: if words.len() >= 2 {
                        words[1]
                    } else {
                        "unknown"@
                    },
                    model: field(rest, "model"@),
                    product: field(rest, "product"@),
                    device: field(rest, "device"@),
                    connection_kind: kind_of(words[0]),
                },
            )
        }
    }
}

pub open spec fn header_index(ls: Seq<Seq<char>>) -> Option<int>
    decreases ls.len(),
{
    if ls.len() == 0 {
        None
    } else {
        match header_index(ls.drop_last()) {
            Some(k) => Some(k),
            None => if starts_with(ls.last(), "List of devices attached"@) {
                Some(ls.len() - 1)
            } else {
                None
            },
        }
    }
}

proof fn lemma_header_index(ls: Seq<Seq<char>>)
    ensures
        header_index(ls) matches Some(k) ==> 0 <= k < ls.len() && starts_with(
            ls[k],
            "List of devices attached"@,
        ) && forall|j: int| 0 <= j < k ==> !starts_with(#[trigger] ls[j], "List of devices attached"@),
        header_index(ls) is None ==> forall|j: int|
            0 <= j < ls.len() ==> !starts_with(#[trigger] ls[j], "List of devices attached"@),
    decreases ls.len(),
{
    if ls.len() > 0 {
        let t = ls.drop_last();
        lemma_header_index(t);
        assert(forall|j: int| 0 <= j < t.len() ==> t[j] == ls[j]);
    }
}

/// The devices listed after the `List of devices attached` line.
pub open spec fn devices_spec(raw: Seq<char>) -> Seq<DeviceView> {
    let ls = lines(raw);
    match header_index(ls) {
        None => Seq::<DeviceView>::empty(),
        Some(k) => ls.skip(k + 1).filter_map(|l: Seq<char>| device_line(l)),
    }
}

fn field_exec(words: &Vec<Vec<char>>, from: usize, key: &str) -> (r: Option<Vec<char>>)
    requires
        from <= words@.len(),
    ensures
        r matches Some(v) ==> field(views(words@).skip(from as int), key@) == Some(v@),
        r is None ==> field(views(words@).skip(from as int), key@) is None,
{
    let ghost wv = views(words@).skip(from as int);
    let kc = chars_of(key);
    let mut i: usize = words.len();
    assert(wv.take(i - from) =~= wv);
    while i > from
        invariant
            from <= i <= words@.len(),
            wv == views(words@).skip(from as int),
            kc@ == key@,
            field(wv, key@) == field(wv.take(i - from), key@),
        decreases i,
    {
        assert(wv.take(i - from).drop_last() =~= wv.take(i - from - 1));
        assert(wv.take(i - from).last() == words@[i - 1]@);
        match split_once_char(&words[i - 1], ':') {
            Some((k, v)) => {
                if crate::text::eq_chars(&k, &kc) {
                    return Some(v);
                }
            },
            None => {},
        }
        i -= 1;
    }
    None
}

fn device_line_exec(line: &[char]) -> (r: Option<DeviceInfo>)
    ensures
        r matches Some(d) ==> device_line(line@) == Some(d@),
        r is None ==> device_line(line@) is None,
{
    let t = trimmed(line);
    if t.len() == 0 || starts_with_str(&t, "*") {
        return None;
    }
    let words = split_whitespace(&t);
    if words.len() == 0 {
        return None;
    }
    let ghost wv = views(words@);
    assert(wv[0] == words@[0]@);
    let serial = string_of(&words[0]);
    let state = if words.len() >= 2 {
        assert(wv[1] == words@[1]@);
        string_of(&words[1])
    } else {
        String::from_str("unknown")
    };
    let from: usize = if words.len() >= 2 {
        2
    } else {
        words.len()
    };
    assert(wv.skip(from as int) =~= (if wv.len() >= 2 {
        wv.skip(2)
    } else {
        Seq::<Seq<char>>::empty()
    }));
    let model = match field_exec(&words, from, "model") {
        Some(v) => Some(string_of(&v)),
        None => None,
    };
    let product = match field_exec(&words, from, "product") {
        Some(v) => Some(string_of(&v)),
        None => None,
    };
    let device = match field_exec(&words, from, "device") {
        Some(v) => Some(string_of(&v)),
        None => None,
    };
    let kind = if is_wireless_serial(serial.as_str()) {
        String::from_str("wireless")
    } else {
        String::from_str("usb")
    };
    Some(
        DeviceInfo {
            serial: serial,
            state: state,
            model: model,
            product: product,
            device: device,
            connection_kind: kind,
        },
    )
}

/// The devices of `adb devices -l` output.
pub fn parse_devices(raw: &str) -> (r: Vec<DeviceInfo>)
    ensures
        device_views(r@) == devices_spec(raw@),
{
    let ls = lines_of(&chars_of(raw));
    let ghost lv = views(ls@);
    let mut k: usize = 0;
    while k < ls.len() && !starts_with_str(&ls[k], "List of devices attached")
        invariant
            k <= ls@.len(),
            lv == views(ls@),
            forall|j: int| 0 <= j < k ==> !starts_with(#[trigger] lv[j], "List of devices attached"@),
        decreases ls@.len() - k,
    {
        assert(lv[k as int] == ls@[k as int]@);
        k += 1;
    }
    proof {
        lemma_header_index(lv);
    }
    let mut r: Vec<DeviceInfo> = Vec::new();
    if k == ls.len() {
        proof {
            if header_index(lv) is Some {
                let h = header_index(lv)->0;
                assert(starts_with(lv[h], "List of devices attached"@));
            }
        }
        return r;
    }
    assert(lv[k as int] == ls@[k as int]@);
    proof {
        match header_index(lv) {
            Some(h) => {
                if h < k {
                    assert(!starts_with(lv[h], "List of devices attached"@));
                }
                if h > k {
                    assert(starts_with(lv[k as int], "List of devices attached"@));
                }
            },
            None => {
                assert(starts_with(lv[k as int], "List of devices attached"@));
            },
        }
    }
    let ghost tail = lv.skip(k + 1);
    let ghost f = |l: Seq<char>| device_line(l);
    let mut i: usize = k + 1;
    while i < ls.len()
        invariant
            k + 1 <= i <= ls@.len(),
            lv == views(ls@),
            tail == lv.skip(k + 1),
            f == (|l: Seq<char>| device_line(l)),
            device_views(r@) == tail.take(i - k - 1).filter_map(f),
        decreases ls@.len() - i,
    {
        assert(tail.take(i - k).drop_last() =~= tail.take(i - k - 1));
        assert(tail.take(i - k).last() == ls@[i as int]@);
        match device_line_exec(&ls[i]) {
            Some(d) => {
                let ghost b = device_views(r@);
                r.push(d);
                assert(device_views(r@) =~= b + seq![d@]);
            },
            None => {},
        }
        i += 1;
    }
    assert(tail.take(ls@.len() - k - 1) =~= tail);
    r
}

/// A whole number after trimming, or 0.
pub open spec fn number_or_zero(v: Seq<char>) -> u32 {
    match crate::number::parse_u32(trim(v)) {
        Some(n) => n,
        None => 0,
    }
}

pub fn parse_u32(value: &str) -> (r: u32)
    ensures
        r == number_or_zero(value@),
{
    match parse_u32_chars(&trimmed(&chars_of(value))) {
        Some(n) => n,
        None => 0,
    }
}

/// The first line that mentions `needle` in any letter case.
pub open spec fn mentions(needle: Seq<char>) -> spec_fn(Seq<char>) -> Option<Seq<char>> {
    |l: Seq<char>| if contains(lower(l), needle) {
        Some(l)
    } else {
        None
    }
}

pub open spec fn has_x() -> spec_fn(Seq<char>) -> Option<Seq<char>> {
    |l: Seq<char>| if index_of(l, 'x') is Some {
        Some(l)
    } else {
        None
    }
}

pub open spec fn last_field(line: Seq<char>) -> Seq<char> {
    split_by(line, sep_fn(Sep::Char(':'))).last()
}

/// Width and height from `wm size` output.
pub open spec fn physical_size_spec(raw: Seq<char>) -> (Option<u32>, Option<u32>) {
    let ls = lines(raw);
    let candidate = match first_some(ls, mentions("physical size"@)) {
        Some(l) => Some(l),
        None => first_some(ls, has_x()),
    };
    match candidate {
        Some(line) => match split_once(trim(last_field(line)), 'x') {
            Some((w, h)) => (crate::number::parse_u32(trim(w)), crate::number::parse_u32(trim(h))),
            None => (None, None),
        },
        None => (None, None),
    }
}

fn first_mentioning(ls: &Vec<Vec<char>>, needle: &str) -> (r: Option<usize>)
    ensures
        r matches Some(k) ==> k < ls@.len() && first_some(views(ls@), mentions(needle@)) == Some(
            ls@[k as int]@,
        ),
        r is None ==> first_some(views(ls@), mentions(needle@)) is None,
{
    let ghost lv = views(ls@);
    let mut i: usize = 0;
    while i < ls.len()
        invariant
            i <= ls@.len(),
            lv == views(ls@),
            forall|j: int| 0 <= j < i ==> (mentions(needle@))(#[trigger] lv[j]) is None,
        decreases ls@.len() - i,
    {
        assert(lv[i as int] == ls@[i as int]@);
        if contains_str(&to_lower(&ls[i]), needle) {
            proof {
                lemma_first_some_at(lv, mentions(needle@), i as int);
            }
            return Some(i);
        }
        i += 1;
    }
    proof {
        lemma_first_some_none(lv, mentions(needle@));
    }
    None
}

fn first_with_x(ls: &Vec<Vec<char>>) -> (r: Option<usize>)
    ensures
        r matches Some(k) ==> k < ls@.len() && first_some(views(ls@), has_x()) == Some(ls@[k as int]@),
        r is None ==> first_some(views(ls@), has_x()) is None,
{
    let ghost lv = views(ls@);
    let mut i: usize = 0;
    while i < ls.len()
        invariant
            i <= ls@.len(),
            lv == views(ls@),
            forall|j: int| 0 <= j < i ==> (has_x())(#[trigger] lv[j]) is None,
        decreases ls@.len() - i,
    {
        assert(lv[i as int] == ls@[i as int]@);
        if index_of_char(&ls[i], 'x').is_some() {
            proof {
                lemma_first_some_at(lv, has_x(), i as int);
            }
            return Some(i);
        }
        i += 1;
    }
    proof {
        lemma_first_some_none(lv, has_x());
    }
    None
}

fn last_field_exec(line: &[char]) -> (r: Vec<char>)
    ensures
        r@ == last_field(line@),
{
    let parts = split(line, Sep::Char(':'));
    proof {
        crate::text::lemma_split_by_len(line@, sep_fn(Sep::Char(':')));
    }
    let n = parts.len();
    assert(views(parts@).last() == parts@[n - 1]@);
    copy_range(&parts[n - 1], 0, parts[n - 1].len())
}

pub fn parse_physical_size(raw: &str) -> (r: (Option<u32>, Option<u32>))
    ensures
        r == physical_size_spec(raw@),
{
    let ls = lines_of(&chars_of(raw));
    let candidate = match first_mentioning(&ls, "physical size") {
        Some(k) => Some(k),
        None => first_with_x(&ls),
    };
    match candidate {
        Some(k) => {
            let value = trimmed(&last_field_exec(&ls[k]));
            match split_once_char(&value, 'x') {
                Some((w, h)) => (parse_u32_chars(&trimmed(&w)), parse_u32_chars(&trimmed(&h))),
                None => (None, None),
            }
        },
        None => (None, None),
    }
}

/// The density from `wm density` output.
pub open spec fn density_spec(raw: Seq<char>) -> Option<u32> {
    let ls = lines(raw);
    let line = match first_some(ls, mentions("physical density"@)) {
        Some(l) => Some(l),
        None => if ls.len() > 0 {
            Some(ls[0])
        } else {
            None
        },
    };
    match line {
        Some(l) => crate::number::parse_u32(trim(last_field(l))),
        None => None,
    }
}

pub fn parse_density(raw: &str) -> (r: Option<u32>)
    ensures
        r == density_spec(raw@),
{
    let ls = lines_of(&chars_of(raw));
    let line = match first_mentioning(&ls, "physical density") {
        Some(k) => Some(k),
        None => if ls.len() > 0 {
            assert(views(ls@)[0] == ls@[0]@);
            Some(0)
        } else {
            None
        },
    };
    match line {
        Some(k) => parse_u32_chars(&trimmed(&last_field_exec(&ls[k]))),
        None => None,
    }
}

/// A property value: the trimmed output of `getprop`, empty when the command failed.
pub open spec fn prop_value(output: Option<Seq<char>>) -> Seq<char> {
    match output {
        Some(o) => trim(o),
        None => Seq::<char>::empty(),
    }
}

pub fn getprop(output: Option<&str>) -> (r: String)
    ensures
        r@ == prop_value(
            match output {
                Some(o) => Some(o@),
                None => None,
            },
        ),
{
    match output {
        Some(o) => string_of(&trimmed(&chars_of(o))),
        None => String::new(),
    }
}

/// The encoder list names an H.265 (HEVC) encoder.
pub open spec fn h265_spec(output: Option<Seq<char>>) -> bool {
    match output {
        Some(o) => contains(lower(o), "h265"@) || contains(lower(o), "hevc"@),
        None => false,
    }
}

/// `output` is what `scrcpy --list-encoders` printed, `None` when it could not run.
pub fn has_h265_encoder(output: Option<&str>) -> (r: bool)
    ensures
        r == h265_spec(
            match output {
                Some(o) => Some(o@),
                None => None,
            },
        ),
{
    match output {
        Some(o) => {
            let l = to_lower(&chars_of(o));
            contains_str(&l, "h265") || contains_str(&l, "hevc")
        },
        None => false,
    }
}

/// Index of the device with a serial.
pub open spec fn device_index(ds: Seq<DeviceView>, serial: Seq<char>) -> Option<int>
    decreases ds.len(),
{
    if ds.len() == 0 {
        None
    } else {
        match device_index(ds.drop_last(), serial) {
            Some(k) => Some(k),
            None => if ds.last().serial == serial {
                Some(ds.len() - 1)
            } else {
                None
            },
        }
    }
}

pub proof fn lemma_device_index(ds: Seq<DeviceView>, serial: Seq<char>)
    ensures
        device_index(ds, serial) matches Some(k) ==> 0 <= k < ds.len() && ds[k].serial == serial
            && forall|j: int| 0 <= j < k ==> ds[j].serial != serial,
        device_index(ds, serial) is None ==> forall|j: int|
            0 <= j < ds.len() ==> ds[j].serial != serial,
    decreases ds.len(),
{
    if ds.len() > 0 {
        let t = ds.drop_last();
        lemma_device_index(t, serial);
        assert(forall|j: int| 0 <= j < t.len() ==> t[j] == ds[j]);
    }
}

/// The position of the device with a serial in a device list.
pub fn find_device(devices: &Vec<DeviceInfo>, serial: &str) -> (r: Option<usize>)
    ensures
        r matches Some(k) ==> k < devices@.len() && device_index(device_views(devices@), serial@)
            == Some(k as int),
        r is None ==> device_index(device_views(devices@), serial@) is None,
{
    let ghost dv = device_views(devices@);
    let mut i: usize = 0;
    while i < devices.len()
        invariant
            i <= devices@.len(),
            dv == device_views(devices@),
            forall|j: int| 0 <= j < i ==> dv[j].serial != serial@,
        decreases devices@.len() - i,
    {
        assert(dv[i as int] == devices@[i as int]@);
        if str_is(&devices[i].serial, serial) {
            proof {
                lemma_device_index(dv, serial@);
                if device_index(dv, serial@) is None {
                    assert(dv[i as int].serial == serial@);
                }
            }
            return Some(i);
        }
        i += 1;
    }
    proof {
        lemma_device_index(dv, serial@);
        if device_index(dv, serial@) is Some {
            let k = device_index(dv, serial@)->0;
            assert(dv[k].serial == serial@);
        }
    }
    None
}

// ---------------------------------------------------------------------------
// Device profile and recommendations
// ---------------------------------------------------------------------------

/// What `inspect_device` reads from the phone, as the commands printed it; `None` where a
/// command failed.
pub struct DeviceReadings {
    pub model_prop: Option<String>,
    pub brand_prop: Option<String>,
    pub release_prop: Option<String>,
    pub sdk_prop: Option<String>,
    pub wm_size: Option<String>,
    pub wm_density: Option<String>,
    pub encoders: Option<String>,
}

pub open spec fn opt_in(o: Option<String>) -> Option<Seq<char>> {
    opt_view(o)
}

/// The phone's model: `ro.product.model`, else the model of `adb devices -l`, else the serial.
pub open spec fn model_spec(serial: Seq<char>, device_model: Option<Seq<char>>, prop: Seq<char>) -> Seq<
    char,
> {
    if prop.len() == 0 {
        match device_model {
            Some(m) => m,
            None => serial,
        }
    } else {
        prop
    }
}

pub open spec fn text_or_empty(o: Option<Seq<char>>) -> Seq<char> {
    match o {
        Some(t) => t,
        None => Seq::<char>::empty(),
    }
}

/// The profile of an authorized phone from its device line and readings.
pub fn device_profile(serial: &str, device: &DeviceInfo, readings: &DeviceReadings) -> (p: DeviceProfile)
    ensures
        p.serial@ == serial@,
        p.model@ == model_spec(serial@, opt_view(device.model), prop_value(opt_in(readings.model_prop))),
        p.brand@ == prop_value(opt_in(readings.brand_prop)),
        p.android_version@ == prop_value(opt_in(readings.release_prop)),
        p.sdk == number_or_zero(prop_value(opt_in(readings.sdk_prop))),
        (p.width, p.height) == physical_size_spec(text_or_empty(opt_in(readings.wm_size))),
        p.density == density_spec(text_or_empty(opt_in(readings.wm_density))),
        p.connection_kind@ == kind_of(serial@),
        p.supports_audio == (p.sdk >= 30),
        p.supports_camera == (p.sdk >= 31),
        p.can_attempt_virtual_display == (p.sdk >= 30),
        p.h265_available == h265_spec(opt_in(readings.encoders)),
        !p.av1_available,
        p.video_encoders@.len() == 0,
{
    let prop_of = |o: &Option<String>| -> (r: String)
        ensures
            r@ == prop_value(opt_in(*o)),
        {
            match o {
                Some(t) => getprop(Some(t.as_str())),
                None => getprop(None),
            }
        };
    let model_prop = prop_of(&readings.model_prop);
    let model = if chars_of(model_prop.as_str()).len() == 0 {
        match &device.model {
            Some(m) => copy_string(m),
            None => String::from_str(serial),
        }
    } else {
        model_prop
    };
    let brand = prop_of(&readings.brand_prop);
    let android_version = prop_of(&readings.release_prop);
    let sdk_text = prop_of(&readings.sdk_prop);
    let sdk = parse_u32(sdk_text.as_str());
    let (width, height) = match &readings.wm_size {
        Some(t) => parse_physical_size(t.as_str()),
        None => parse_physical_size(""),
    };
    let density = match &readings.wm_density {
        Some(t) => parse_density(t.as_str()),
        None => parse_density(""),
    };
    proof {
        assert(""@ == Seq::<char>::empty()) by {
            reveal_strlit("");
        }
    }
    let h265 = match &readings.encoders {
        Some(t) => has_h265_encoder(Some(t.as_str())),
        None => false,
    };
    let kind = if is_wireless_serial(serial) {
        String::from_str("wireless")
    } else {
        String::from_str("usb")
    };
    DeviceProfile {
        serial: String::from_str(serial),
        model: model,
        brand: brand,
        android_version: android_version,
        sdk: sdk,
        width: width,
        height: height,
        density: density,
        connection_kind: kind,
        supports_audio: sdk >= 30,
        supports_camera: sdk >= 31,
        can_attempt_virtual_display: sdk >= 30,
        h265_available: h265,
        av1_available: false,
        video_encoders: Vec::new(),
    }
}

/// Recommendation as plain values.
pub struct RecommendationView {
    pub mode: Seq<char>,
    pub max_size: u32,
    pub max_fps: u32,
    pub codec: Seq<char>,
    pub audio: bool,
    pub stay_awake: bool,
    pub turn_screen_off: bool,
    pub show_touches: bool,
    pub quality_label: Seq<char>,
    pub rationale: Seq<Seq<char>>,
}

impl View for Recommendation {
    type V = RecommendationView;

    open spec fn view(&self) -> RecommendationView {
        RecommendationView {
            mode: self.mode@,
            max_size: self.max_size,
            max_fps: self.max_fps,
            codec: self.codec@,
            audio: self.audio,
            stay_awake: self.stay_awake,
            turn_screen_off: self.turn_screen_off,
            show_touches: self.show_touches,
            quality_label: self.quality_label@,
            rationale: strs(self.rationale@),
        }
    }
}

pub open spec fn link_line(wireless: bool) -> Seq<char> {
    if wireless {
        "Wireless profile reduces bandwidth for a steadier connection."@
    } else {
        "USB connection allows a higher-quality low-latency profile."@
    }
}

pub open spec fn mode_lines(p: DeviceProfile, mode: Seq<char>) -> Seq<Seq<char>> {
    if mode == "creator"@ {
        seq!["Creator Mode enables visible touches and prioritizes clean tutorial capture."@]
            + if p.h265_available {
            seq![
                "H.265 is available, so Creator Mode starts with the more bandwidth-efficient encoder."@,
            ]
        } else {
            Seq::<Seq<char>>::empty()
        }
    } else if mode == "camera"@ {
        seq!["Camera Mode uses conservative 1080p/30 settings for broad encoder compatibility."@]
    } else if mode == "desktop"@ {
        seq!["Desktop Mode uses scrcpy's virtual-display path and a compatibility-first codec."@]
    } else {
        seq!["Everyday Mirror Mode favors H.264 compatibility and responsive control."@]
    }
}

pub open spec fn audio_line(p: DeviceProfile) -> Seq<Seq<char>> {
    if !p.supports_audio {
        seq![
            "Audio forwarding is disabled because this Android version is below the supported level."@,
        ]
    } else {
        Seq::<Seq<char>>::empty()
    }
}

pub open spec fn quality_label_spec(mode: Seq<char>, wireless: bool) -> Seq<char> {
    if mode == "creator"@ {
        "Creator-ready profile"@
    } else if mode == "camera"@ {
        "Stable camera profile"@
    } else if mode == "desktop"@ {
        "Balanced desktop profile"@
    } else if wireless {
        "Balanced wireless profile"@
    } else {
        "Fast USB profile"@
    }
}

/// The settings recommended for a phone in a mode.
pub open spec fn recommendation_spec(p: DeviceProfile, mode: Seq<char>) -> RecommendationView {
    let wireless = p.connection_kind@ == "wireless"@;
    let camera = mode == "camera"@;
    let desktop = mode == "desktop"@;
    let creator = mode == "creator"@;
    RecommendationView {
        mode: mode,
        max_size: if camera || desktop {
            1920
        } else if wireless {
            1280
        } else {
            1920
        },
        max_fps: if camera {
            30
        } else if wireless {
            30
        } else {
            60
        },
        codec: if creator && p.h265_available {
            "h265"@
        } else {
            "h264"@
        },
        audio: p.supports_audio,
        stay_awake: !camera,
        turn_screen_off: false,
        show_touches: creator,
        quality_label: quality_label_spec(mode, wireless),
        rationale: seq![link_line(wireless)] + mode_lines(p, mode) + audio_line(p),
    }
}

/// A wireless connection gets a lighter profile than USB: in Mirror and Creator Mode a
/// wireless phone is recommended 1280 pixels at 30 frames per second and a USB phone 1920 at
/// 60, and in no mode is a wireless phone recommended more pixels or frames per second than a
/// phone over USB.
pub proof fn lemma_wireless_is_lighter(wireless: DeviceProfile, usb: DeviceProfile, mode: Seq<char>)
    requires
        wireless.connection_kind@ == "wireless"@,
        usb.connection_kind@ != "wireless"@,
    ensures
        mode == "mirror"@ || mode == "creator"@ ==> recommendation_spec(wireless, mode).max_size
            == 1280 && recommendation_spec(wireless, mode).max_fps == 30 && recommendation_spec(
            usb,
            mode,
        ).max_size == 1920 && recommendation_spec(usb, mode).max_fps == 60,
        recommendation_spec(wireless, mode).max_size <= recommendation_spec(usb, mode).max_size,
        recommendation_spec(wireless, mode).max_fps <= recommendation_spec(usb, mode).max_fps,
{
    lemma_modes_distinct();
}

/// The four mode names are different texts.
pub proof fn lemma_modes_distinct()
    ensures
        "mirror"@ != "creator"@,
        "mirror"@ != "camera"@,
        "mirror"@ != "desktop"@,
        "creator"@ != "camera"@,
        "creator"@ != "desktop"@,
        "camera"@ != "desktop"@,
{
    reveal_strlit("mirror");
    reveal_strlit("creator");
    reveal_strlit("camera");
    reveal_strlit("desktop");
    assert("mirror"@[1] != "creator"@[1]);
    assert("mirror"@[0] != "camera"@[0]);
    assert("mirror"@[0] != "desktop"@[0]);
    assert("creator"@[1] != "camera"@[1]);
    assert("creator"@[0] != "desktop"@[0]);
    assert("camera"@[0] != "desktop"@[0]);
}

pub fn recommendation_for(profile: &DeviceProfile, mode: &str) -> (r: Recommendation)
    ensures
        r@ == recommendation_spec(*profile, mode@),
{
    proof {
        lemma_modes_distinct();
    }
    let wireless = str_is(&profile.connection_kind, "wireless");
    let m = chars_of(mode);
    let creator = crate::text::eq_str(&m, "creator");
    let camera = crate::text::eq_str(&m, "camera");
    let desktop = crate::text::eq_str(&m, "desktop");
    let mut max_size: u32 = if wireless {
        1280
    } else {
        1920
    };
    let mut max_fps: u32 = if wireless {
        30
    } else {
        60
    };
    let mut codec = String::from_str("h264");
    let mut audio = profile.supports_audio;
    let mut stay_awake = true;
    let turn_screen_off = false;
    let mut show_touches = false;
    let mut rationale: Vec<String> = Vec::new();
    if wireless {
        crate::text::push_str(
            &mut rationale,
            String::from_str("Wireless profile reduces bandwidth for a steadier connection."),
        );
    } else {
        crate::text::push_str(
            &mut rationale,
            String::from_str("USB connection allows a higher-quality low-latency profile."),
        );
    }
    let ghost r1 = strs(rationale@);
    assert(r1 =~= seq![link_line(wireless)]);
    if creator {
        show_touches = true;
        codec = if profile.h265_available {
            String::from_str("h265")
        } else {
            String::from_str("h264")
        };
        max_size = if wireless {
            1280
        } else {
            1920
        };
        max_fps = if wireless {
            30
        } else {
            60
        };
        crate::text::push_str(
            &mut rationale,
            String::from_str(
                "Creator Mode enables visible touches and prioritizes clean tutorial capture.",
            ),
        );
        if profile.h265_available {
            crate::text::push_str(
                &mut rationale,
                String::from_str(
                    "H.265 is available, so Creator Mode starts with the more bandwidth-efficient encoder.",
                ),
            );
        }
    } else if camera {
        max_size = 1920;
        max_fps = 30;
        codec = String::from_str("h264");
        stay_awake = false;
        crate::text::push_str(
            &mut rationale,
            String::from_str(
                "Camera Mode uses conservative 1080p/30 settings for broad encoder compatibility.",
            ),
        );
    } else if desktop {
        max_size = 1920;
        max_fps = if wireless {
            30
        } else {
            60
        };
        codec = String::from_str("h264");
        crate::text::push_str(
            &mut rationale,
            String::from_str(
                "Desktop Mode uses scrcpy's virtual-display path and a compatibility-first codec.",
            ),
        );
    } else {
        crate::text::push_str(
            &mut rationale,
            String::from_str("Everyday Mirror Mode favors H.264 compatibility and responsive control."),
        );
    }
    assert(strs(rationale@) =~= r1 + mode_lines(*profile, mode@));
    let ghost r2 = strs(rationale@);
    if !profile.supports_audio {
        audio = false;
        crate::text::push_str(
            &mut rationale,
            String::from_str(
                "Audio forwarding is disabled because this Android version is below the supported level.",
            ),
        );
    }
    assert(strs(rationale@) =~= r2 + audio_line(*profile));
    assert(strs(rationale@) =~= seq![link_line(wireless)] + mode_lines(*profile, mode@) + audio_line(*profile));
    let quality_label = if creator {
        String::from_str("Creator-ready profile")
    } else if camera {
        String::from_str("Stable camera profile")
    } else if desktop {
        String::from_str("Balanced desktop profile")
    } else if wireless {
        String::from_str("Balanced wireless profile")
    } else {
        String::from_str("Fast USB profile")
    };
    Recommendation {
        mode: String::from_str(mode),
        max_size: max_size,
        max_fps: max_fps,
        codec: codec,
        audio: audio,
        stay_awake: stay_awake,
        turn_screen_off: turn_screen_off,
        show_touches: show_touches,
        quality_label: quality_label,
        rationale: rationale,
    }
}

pub open spec fn known_mode(m: Seq<char>) -> bool {
    m == "mirror"@ || m == "creator"@ || m == "camera"@ || m == "desktop"@
}

pub fn is_known_mode(mode: &str) -> (b: bool)
    ensures
        b == known_mode(mode@),
{
    let m = chars_of(mode);
    crate::text::eq_str(&m, "mirror") || crate::text::eq_str(&m, "creator")
        || crate::text::eq_str(&m, "camera") || crate::text::eq_str(&m, "desktop")
}

pub open spec fn learned_applies(p: DeviceProfile, l: LearnedProfile) -> bool {
    l.codec@ != "h265"@ || p.h265_available
}

pub open spec fn tested_line() -> Seq<char> {
    "Using settings that previously launched successfully on this device in this mode."@
}

/// The recommendation, replaced by what worked before on this phone when its codec is still
/// available.
pub open spec fn with_learned(p: DeviceProfile, mode: Seq<char>, learned: Option<LearnedProfile>) -> RecommendationView {
    let base = recommendation_spec(p, mode);
    match learned {
        Some(l) => if learned_applies(p, l) {
            RecommendationView {
                max_size: l.max_size,
                max_fps: l.max_fps,
                codec: l.codec@,
                audio: l.audio && p.supports_audio,
                quality_label: "Tested device profile"@,
                rationale: seq![tested_line()] + base.rationale,
                ..base
            }
        } else {
            base
        },
        None => base,
    }
}

/// Settings for a phone in a mode: unknown modes and Camera Mode below Android 12 are refused.
pub fn recommend_settings(profile: &DeviceProfile, mode: &str, learned: Option<LearnedProfile>) -> (r: Result<
    Recommendation,
    String,
>)
    ensures
        !known_mode(mode@) ==> (r matches Err(e) && e@ == "Unknown session mode."@),
        known_mode(mode@) && mode@ == "camera"@ && !profile.supports_camera ==> (r matches Err(e)
            && e@ == "Camera mirroring requires Android 12 or newer."@),
        r is Ok <==> known_mode(mode@) && !(mode@ == "camera"@ && !profile.supports_camera),
        r matches Ok(rec) ==> rec@ == with_learned(*profile, mode@, learned),
{
    if !is_known_mode(mode) {
        return Err(String::from_str("Unknown session mode."));
    }
    if crate::text::eq_str(&chars_of(mode), "camera") && !profile.supports_camera {
        return Err(String::from_str("Camera mirroring requires Android 12 or newer."));
    }
    let mut rec = recommendation_for(profile, mode);
    match learned {
        Some(l) => {
            if !str_is(&l.codec, "h265") || profile.h265_available {
                rec.max_size = l.max_size;
                rec.max_fps = l.max_fps;
                rec.audio = l.audio && profile.supports_audio;
                rec.codec = l.codec;
                rec.quality_label = String::from_str("Tested device profile");
                let ghost before = strs(rec.rationale@);
                rec.rationale.insert(0, String::from_str(tested_line_text()));
                assert(strs(rec.rationale@) =~= seq![tested_line()] + before);
            }
        },
        None => {},
    }
    Ok(rec)
}

fn tested_line_text() -> (r: &'static str)
    ensures
        r@ == tested_line(),
{
    "Using settings that previously launched successfully on this device in this mode."
}

/// A phone is inspected only when it is listed and authorized.
pub open spec fn inspect_check_spec(ds: Seq<DeviceView>, serial: Seq<char>) -> Result<(), Seq<char>> {
    match device_index(ds, serial) {
        None => Err("Selected device is no longer connected."@),
        Some(k) => if ds[k].state != "device"@ {
            Err("Device state is '"@ + ds[k].state + "'. Authorize or reconnect the phone first."@)
        } else {
            Ok(())
        },
    }
}

pub open spec fn unit_view(r: Result<(), String>) -> Result<(), Seq<char>> {
    match r {
        Ok(()) => Ok(()),
        Err(e) => Err(e@),
    }
}

pub fn inspect_device_check(devices: &Vec<DeviceInfo>, serial: &str) -> (r: Result<(), String>)
    ensures
        unit_view(r) == inspect_check_spec(device_views(devices@), serial@),
{
    let ghost dv = device_views(devices@);
    match find_device(devices, serial) {
        None => Err(String::from_str("Selected device is no longer connected.")),
        Some(k) => {
            assert(dv[k as int] == devices@[k as int]@);
            if !str_is(&devices[k].state, "device") {
                let mut e = crate::text::lit_plus("Device state is '", &devices[k].state);
                e.append("'. Authorize or reconnect the phone first.");
                Err(e)
            } else {
                Ok(())
            }
        },
    }
}

} // verus!
