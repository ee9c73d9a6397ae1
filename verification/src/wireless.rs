//! Wireless debugging: address checks, pairing, remembered addresses and switching
//! between USB and Wi-Fi transports of one phone.
use vstd::prelude::*;
use crate::models::{
    device_views, DeviceInfo, DeviceView, RememberedWirelessDevice, TransportSwitchResult,
};
use crate::number::{all_digits, is_ipv4, is_ipv4_chars};
use crate::text::{
    chars_of, contains, contains_str, eq_str, is_ascii_digit, is_whitespace, is_ws, lower,
    opt_view, sep_fn, str_is, split, split_by, split_whitespace, split_ws, string_of, to_lower, trim,
    trimmed, views, Sep,
};

verus! {

broadcast use vstd::string::group_string_axioms;

// ---------------------------------------------------------------------------
// Addresses and pairing codes
// ---------------------------------------------------------------------------

/// The number of bytes a character takes in UTF-8.
pub open spec fn utf8_width(c: char) -> int {
    if (c as u32) < 0x80 {
        1
    } else if (c as u32) < 0x800 {
        2
    } else if (c as u32) < 0x10000 {
        3
    } else {
        4
    }
}

/// The length in bytes of a text in UTF-8 (`str::len`).
pub open spec fn utf8_len(s: Seq<char>) -> int
    decreases s.len(),
{
    if s.len() == 0 {
        0
    } else {
        utf8_len(s.drop_last()) + utf8_width(s.last())
    }
}

proof fn lemma_utf8_len_grows(s: Seq<char>, i: int)
    requires
        0 <= i <= s.len(),
    ensures
        utf8_len(s.take(i)) <= utf8_len(s),
    decreases s.len() - i,
{
    if i < s.len() {
        lemma_utf8_len_grows(s, i + 1);
        assert(s.take(i + 1).drop_last() =~= s.take(i));
    } else {
        assert(s.take(i) =~= s);
    }
}

/// Whether a text takes more than `limit` bytes in UTF-8.
fn longer_than(s: &[char], limit: u64) -> (b: bool)
    ensures
        b == (utf8_len(s@) > limit),
{
    let mut total: u64 = 0;
    let mut i: usize = 0;
    while i < s.len()
        invariant
            i <= s@.len(),
            total == utf8_len(s@.take(i as int)),
            total <= limit,
        decreases s@.len() - i,
    {
        let c = s[i];
        let w: u64 = if (c as u32) < 0x80 {
            1
        } else if (c as u32) < 0x800 {
            2
        } else if (c as u32) < 0x10000 {
            3
        } else {
            4
        };
        assert(s@.take(i + 1 as int).drop_last() =~= s@.take(i as int));
        if w > limit - total {
            proof {
                lemma_utf8_len_grows(s@, i + 1);
            }
            return true;
        }
        total = total + w;
        i += 1;
    }
    assert(s@.take(s@.len() as int) =~= s@);
    false
}

pub open spec fn has_ws(s: Seq<char>) -> bool {
    exists|i: int| 0 <= i < s.len() && is_ws(#[trigger] s[i])
}

fn any_whitespace(s: &[char]) -> (b: bool)
    ensures
        b == has_ws(s@),
{
    let mut i: usize = 0;
    while i < s.len()
        invariant
            i <= s@.len(),
            forall|j: int| 0 <= j < i ==> !is_ws(#[trigger] s@[j]),
        decreases s@.len() - i,
    {
        if is_whitespace(s[i]) {
            assert(is_ws(s@[i as int]));
            return true;
        }
        i += 1;
    }
    false
}

pub open spec fn address_error() -> Seq<char> {
    "Enter a valid host:port address, for example 192.168.1.20:37123."@
}

/// A usable `host:port` text: the trimmed input is not empty, at most 255 bytes long, holds
/// no white space and holds a `:`.
pub open spec fn address_ok(v: Seq<char>) -> bool {
    v.len() > 0 && utf8_len(v) <= 255 && !has_ws(v) && v.contains(':')
}

pub open spec fn safe_address_spec(address: Seq<char>) -> Result<Seq<char>, Seq<char>> {
    let v = trim(address);
    if address_ok(v) {
        Ok(v)
    } else {
        Err(address_error())
    }
}

pub open spec fn result_view(r: Result<String, String>) -> Result<Seq<char>, Seq<char>> {
    match r {
        Ok(v) => Ok(v@),
        Err(e) => Err(e@),
    }
}

fn has_colon(s: &[char]) -> (b: bool)
    ensures
        b == s@.contains(':'),
{
    let mut i: usize = 0;
    while i < s.len()
        invariant
            i <= s@.len(),
            forall|j: int| 0 <= j < i ==> s@[j] != ':',
        decreases s@.len() - i,
    {
        if s[i] == ':' {
            assert(s@[i as int] == ':');
            return true;
        }
        i += 1;
    }
    false
}

/// Checks a `host:port` address and gives it back trimmed.
pub fn safe_address(address: &str) -> (r: Result<String, String>)
    ensures
        result_view(r) == safe_address_spec(address@),
{
    let v = trimmed(&chars_of(address));
    if v.len() == 0 || longer_than(&v, 255) || any_whitespace(&v) || !has_colon(&v) {
        return Err(String::from_str("Enter a valid host:port address, for example 192.168.1.20:37123."));
    }
    Ok(string_of(&v))
}

/// A pairing code: six to twelve ASCII digits once trimmed.
pub open spec fn pairing_code_spec(code: Seq<char>) -> Result<Seq<char>, Seq<char>> {
    let c = trim(code);
    if 6 <= c.len() <= 12 && all_digits(c) {
        Ok(c)
    } else {
        Err("Enter the numeric pairing code shown on the phone."@)
    }
}

/// Checks a pairing code and gives it back trimmed.
pub fn pairing_code(code: &str) -> (r: Result<String, String>)
    ensures
        result_view(r) == pairing_code_spec(code@),
{
    let c = trimmed(&chars_of(code));
    let mut i: usize = 0;
    while i < c.len()
        invariant
            i <= c@.len(),
            c@ == trim(code@),
            forall|j: int| 0 <= j < i ==> crate::text::is_digit(#[trigger] c@[j]),
        decreases c@.len() - i,
    {
        if !is_ascii_digit(c[i]) {
            assert(!crate::text::is_digit(c@[i as int]));
            assert(!all_digits(c@));
            return Err(String::from_str("Enter the numeric pairing code shown on the phone."));
        }
        i += 1;
    }
    if c.len() < 6 || c.len() > 12 {
        return Err(String::from_str("Enter the numeric pairing code shown on the phone."));
    }
    Ok(string_of(&c))
}

/// The `adb` arguments that pair with a phone: the address is checked first, then the code.
pub open spec fn pair_args_spec(address: Seq<char>, code: Seq<char>) -> Result<Seq<Seq<char>>, Seq<char>> {
    match safe_address_spec(address) {
        Err(e) => Err(e),
        Ok(a) => match pairing_code_spec(code) {
            Err(e) => Err(e),
            Ok(c) => Ok(seq!["pair"@, a, c]),
        },
    }
}

pub open spec fn args_view(r: Result<Vec<String>, String>) -> Result<Seq<Seq<char>>, Seq<char>> {
    match r {
        Ok(v) => Ok(crate::text::strs(v@)),
        Err(e) => Err(e@),
    }
}

/// What `adb` is run with to pair, or why the request is refused.
pub fn pair_device_args(address: &str, code: &str) -> (r: Result<Vec<String>, String>)
    ensures
        args_view(r) == pair_args_spec(address@, code@),
{
    let a = match safe_address(address) {
        Ok(a) => a,
        Err(e) => return Err(e),
    };
    let c = match pairing_code(code) {
        Ok(c) => c,
        Err(e) => return Err(e),
    };
    let mut v: Vec<String> = Vec::new();
    v.push(String::from_str("pair"));
    v.push(a);
    v.push(c);
    assert(crate::text::strs(v@) =~= seq!["pair"@, a@, c@]);
    Ok(v)
}

/// What pairing reports: `adb`'s own words, or a hint when it printed nothing.
pub open spec fn pair_message_spec(output: Seq<char>) -> Seq<char> {
    if output.len() == 0 {
        "Pairing request completed. Use the separate IP:port shown on the main Wireless debugging page to connect."@
    } else {
        output
    }
}

pub fn pair_message(output: String) -> (r: String)
    ensures
        r@ == pair_message_spec(output@),
{
    if output.as_str().unicode_len() == 0 {
        String::from_str(
            "Pairing request completed. Use the separate IP:port shown on the main Wireless debugging page to connect.",
        )
    } else {
        output
    }
}

// ---------------------------------------------------------------------------
// Connecting
// ---------------------------------------------------------------------------

/// `adb connect` printed one of its failure phrases (in any letter case).
pub open spec fn connect_failed_spec(text: Seq<char>) -> bool {
    let l = lower(text);
    contains(l, "failed to connect"@) || contains(l, "cannot connect"@) || contains(
        l,
        "unable to connect"@,
    ) || contains(l, "connection refused"@) || contains(l, "no route to host"@) || contains(
        l,
        "timed out"@,
    )
}

pub fn connect_failed(text: &str) -> (b: bool)
    ensures
        b == connect_failed_spec(text@),
{
    let l = to_lower(&chars_of(text));
    contains_str(&l, "failed to connect") || contains_str(&l, "cannot connect") || contains_str(
        &l,
        "unable to connect",
    ) || contains_str(&l, "connection refused") || contains_str(&l, "no route to host")
        || contains_str(&l, "timed out")
}

/// The `adb` arguments that connect to an address.
pub open spec fn connect_args_spec(address: Seq<char>) -> Result<Seq<Seq<char>>, Seq<char>> {
    match safe_address_spec(address) {
        Err(e) => Err(e),
        Ok(a) => Ok(seq!["connect"@, a]),
    }
}

pub fn connect_device_args(address: &str) -> (r: Result<Vec<String>, String>)
    ensures
        args_view(r) == connect_args_spec(address@),
{
    let a = match safe_address(address) {
        Ok(a) => a,
        Err(e) => return Err(e),
    };
    let mut v: Vec<String> = Vec::new();
    v.push(String::from_str("connect"));
    v.push(a);
    assert(crate::text::strs(v@) =~= seq!["connect"@, a@]);
    Ok(v)
}

/// What a connection attempt to a checked address ends with, from what `adb connect` printed.
pub open spec fn connect_outcome_spec(address: Seq<char>, output: Seq<char>) -> Result<Seq<char>, Seq<char>> {
    if connect_failed_spec(output) {
        Err(output)
    } else if output.len() == 0 {
        Ok("Connected to "@ + address)
    } else {
        Ok(output)
    }
}

pub fn connect_outcome(address: &String, output: String) -> (r: Result<String, String>)
    ensures
        result_view(r) == connect_outcome_spec(address@, output@),
{
    if connect_failed(output.as_str()) {
        Err(output)
    } else if output.as_str().unicode_len() == 0 {
        Ok(crate::text::lit_plus("Connected to ", address))
    } else {
        Ok(output)
    }
}

/// The `adb` arguments that drop a wireless connection.
pub fn disconnect_args(address: &str) -> (r: Vec<String>)
    ensures
        crate::text::strs(r@) == seq!["disconnect"@, address@],
{
    let mut v: Vec<String> = Vec::new();
    v.push(String::from_str("disconnect"));
    v.push(String::from_str(address));
    assert(crate::text::strs(v@) =~= seq!["disconnect"@, address@]);
    v
}

// ---------------------------------------------------------------------------
// Properties of a connected phone
// ---------------------------------------------------------------------------

/// A property that `getprop` reported: its trimmed output, unless the command failed or
/// printed nothing or `unknown`.
pub open spec fn prop_reading(output: Option<Seq<char>>) -> Option<Seq<char>> {
    match output {
        Some(o) => {
            let v = trim(o);
            if v.len() > 0 && v != "unknown"@ {
                Some(v)
            } else {
                None
            }
        },
        None => None,
    }
}

pub open spec fn opt_str_view(o: Option<&str>) -> Option<Seq<char>> {
    match o {
        Some(s) => Some(s@),
        None => None,
    }
}

/// `output` is what `adb shell getprop` printed, `None` when the command failed.
pub fn adb_getprop(output: Option<&str>) -> (r: Option<String>)
    ensures
        opt_view(r) == prop_reading(opt_str_view(output)),
{
    match output {
        Some(o) => {
            let v = trimmed(&chars_of(o));
            if v.len() > 0 && !eq_str(&v, "unknown") {
                Some(string_of(&v))
            } else {
                None
            }
        },
        None => None,
    }
}

/// The hardware serial number: `ro.boot.serialno`, else `ro.serialno`.
pub open spec fn hardware_serial_spec(boot: Option<Seq<char>>, plain: Option<Seq<char>>) -> Option<Seq<char>> {
    match prop_reading(boot) {
        Some(v) => Some(v),
        None => prop_reading(plain),
    }
}

/// `boot` and `plain` are the outputs of reading `ro.boot.serialno` and `ro.serialno`.
pub fn hardware_serial(boot: Option<&str>, plain: Option<&str>) -> (r: Option<String>)
    ensures
        opt_view(r) == hardware_serial_spec(opt_str_view(boot), opt_str_view(plain)),
{
    match adb_getprop(boot) {
        Some(v) => Some(v),
        None => adb_getprop(plain),
    }
}

/// The name a remembered address is shown with: the phone's model, else the address.
pub open spec fn label_spec(model_output: Option<Seq<char>>, address: Seq<char>) -> Seq<char> {
    match prop_reading(model_output) {
        Some(m) => m,
        None => address,
    }
}

/// `model_output` is what reading `ro.product.model` over the address printed.
pub fn connected_model(model_output: Option<&str>, address: &str) -> (r: String)
    ensures
        r@ == label_spec(opt_str_view(model_output), address@),
{
    match adb_getprop(model_output) {
        Some(m) => m,
        None => String::from_str(address),
    }
}

// ---------------------------------------------------------------------------
// The phone's Wi-Fi address
// ---------------------------------------------------------------------------

/// The first IPv4 address that follows a `src` word.
pub open spec fn route_from(toks: Seq<Seq<char>>) -> Option<Seq<char>>
    decreases toks.len(),
{
    if toks.len() < 2 {
        None
    } else if toks[0] == "src"@ && is_ipv4(toks[1]) {
        Some(toks[1])
    } else {
        route_from(toks.drop_first())
    }
}

/// The source address in the output of `ip route`.
pub open spec fn route_ipv4_spec(text: Seq<char>) -> Option<Seq<char>> {
    route_from(split_ws(text))
}

pub fn parse_route_ipv4(text: &str) -> (r: Option<String>)
    ensures
        opt_view(r) == route_ipv4_spec(text@),
{
    let toks = split_whitespace(&chars_of(text));
    let ghost tv = views(toks@);
    let n = toks.len();
    let mut i: usize = 0;
    assert(tv.skip(0) =~= tv);
    while i < n && n - i > 1
        invariant
            n == toks@.len() == tv.len(),
            tv == views(toks@),
            tv == split_ws(text@),
            i <= n,
            route_from(tv) == route_from(tv.skip(i as int)),
        decreases n - i,
    {
        assert(tv[i as int] == toks@[i as int]@);
        assert(tv[i + 1] == toks@[i + 1]@);
        assert(tv.skip(i as int)[0] == tv[i as int]);
        assert(tv.skip(i as int)[1] == tv[i + 1]);
        if eq_str(&toks[i], "src") && is_ipv4_chars(&toks[i + 1]) {
            return Some(string_of(&toks[i + 1]));
        }
        assert(tv.skip(i as int).drop_first() =~= tv.skip(i + 1));
        i += 1;
    }
    None
}

/// The first IPv4 address (before any `/`) that follows an `inet` word.
pub open spec fn inet_from(toks: Seq<Seq<char>>) -> Option<Seq<char>>
    decreases toks.len(),
{
    if toks.len() < 2 {
        None
    } else if toks[0] == "inet"@ && is_ipv4(split_by(toks[1], sep_fn(Sep::Char('/')))[0]) {
        Some(split_by(toks[1], sep_fn(Sep::Char('/')))[0])
    } else {
        inet_from(toks.drop_first())
    }
}

/// The address in the output of `ip -f inet addr show wlan0`.
pub open spec fn wlan_ipv4_spec(text: Seq<char>) -> Option<Seq<char>> {
    inet_from(split_ws(text))
}

pub fn parse_wlan_ipv4(text: &str) -> (r: Option<String>)
    ensures
        opt_view(r) == wlan_ipv4_spec(text@),
{
    let toks = split_whitespace(&chars_of(text));
    let ghost tv = views(toks@);
    let n = toks.len();
    let mut i: usize = 0;
    assert(tv.skip(0) =~= tv);
    while i < n && n - i > 1
        invariant
            n == toks@.len() == tv.len(),
            tv == views(toks@),
            tv == split_ws(text@),
            i <= n,
            inet_from(tv) == inet_from(tv.skip(i as int)),
        decreases n - i,
    {
        assert(tv[i as int] == toks@[i as int]@);
        assert(tv[i + 1] == toks@[i + 1]@);
        assert(tv.skip(i as int)[0] == tv[i as int]);
        assert(tv.skip(i as int)[1] == tv[i + 1]);
        if eq_str(&toks[i], "inet") {
            let parts = split(&toks[i + 1], Sep::Char('/'));
            proof {
                crate::text::lemma_split_by_len(toks@[i + 1]@, sep_fn(Sep::Char('/')));
            }
            assert(views(parts@)[0] == parts@[0]@);
            if is_ipv4_chars(&parts[0]) {
                return Some(string_of(&parts[0]));
            }
        }
        assert(tv.skip(i as int).drop_first() =~= tv.skip(i + 1));
        i += 1;
    }
    None
}

/// The phone's Wi-Fi address, from the output of `ip route` and, when that names none, of
/// `ip -f inet addr show wlan0` (`None` where a command failed or was not run).
pub open spec fn wifi_ip_spec(route: Option<Seq<char>>, wlan: Option<Seq<char>>) -> Result<Seq<char>, Seq<char>> {
    match route {
        Some(t) if route_ipv4_spec(t) is Some => Ok(route_ipv4_spec(t)->0),
        _ => match wlan {
            Some(t) if wlan_ipv4_spec(t) is Some => Ok(wlan_ipv4_spec(t)->0),
            _ => Err(
                "Could not detect the phone's Wi-Fi IP address. Make sure the phone is connected to Wi-Fi."@,
            ),
        },
    }
}

pub fn device_wifi_ip(route: Option<&str>, wlan: Option<&str>) -> (r: Result<String, String>)
    ensures
        result_view(r) == wifi_ip_spec(opt_str_view(route), opt_str_view(wlan)),
{
    if let Some(t) = route {
        if let Some(ip) = parse_route_ipv4(t) {
            return Ok(ip);
        }
    }
    if let Some(t) = wlan {
        if let Some(ip) = parse_wlan_ipv4(t) {
            return Ok(ip);
        }
    }
    Err(
        String::from_str(
            "Could not detect the phone's Wi-Fi IP address. Make sure the phone is connected to Wi-Fi.",
        ),
    )
}

// ---------------------------------------------------------------------------
// One phone on two transports
// ---------------------------------------------------------------------------

/// Two device lines belong to one phone: both report the same hardware serial, or the first
/// reports a model, product and device name and the second reports the same three.
pub open spec fn same_phone_spec(
    a: DeviceView,
    b: DeviceView,
    a_hw: Option<Seq<char>>,
    b_hw: Option<Seq<char>>,
) -> bool {
    (a_hw is Some && b_hw is Some && a_hw == b_hw) || (a.model is Some && a.model == b.model
        && a.product is Some && a.product == b.product && a.device is Some && a.device == b.device)
}

fn opt_eq(a: &Option<String>, b: &Option<String>) -> (r: bool)
    ensures
        r == (opt_view(*a) == opt_view(*b)),
{
    match (a, b) {
        (Some(x), Some(y)) => {
            let xc = chars_of(x.as_str());
            let yc = chars_of(y.as_str());
            crate::text::eq_chars(&xc, &yc)
        },
        (None, None) => true,
        _ => false,
    }
}

/// `a_hw` and `b_hw` are the hardware serials read from the two phones (see
/// `hardware_serial`).
pub fn same_physical_phone(
    a: &DeviceInfo,
    b: &DeviceInfo,
    a_hw: &Option<String>,
    b_hw: &Option<String>,
) -> (r: bool)
    ensures
        r == same_phone_spec(a@, b@, opt_view(*a_hw), opt_view(*b_hw)),
{
    if a_hw.is_some() && b_hw.is_some() && opt_eq(a_hw, b_hw) {
        return true;
    }
    a.model.is_some() && opt_eq(&a.model, &b.model) && a.product.is_some() && opt_eq(
        &a.product,
        &b.product,
    ) && a.device.is_some() && opt_eq(&a.device, &b.device)
}

/// Being the same phone does not depend on which of the two lines comes first.
pub proof fn lemma_same_phone_symmetric(
    a: DeviceView,
    b: DeviceView,
    a_hw: Option<Seq<char>>,
    b_hw: Option<Seq<char>>,
)
    ensures
        same_phone_spec(a, b, a_hw, b_hw) == same_phone_spec(b, a, b_hw, a_hw),
{
}

/// The hardware serial read for the device at position `i`, none past the end.
pub open spec fn hw_at(hw: Seq<Option<Seq<char>>>, i: int) -> Option<Seq<char>> {
    if 0 <= i < hw.len() {
        hw[i]
    } else {
        None
    }
}

pub open spec fn hw_views(hw: Seq<Option<String>>) -> Seq<Option<Seq<char>>> {
    hw.map_values(|o: Option<String>| opt_view(o))
}

/// `d` is another authorized transport of the same phone as `src`, of the wanted kind.
pub open spec fn is_sibling(
    d: DeviceView,
    d_hw: Option<Seq<char>>,
    src: DeviceView,
    src_hw: Option<Seq<char>>,
    kind: Seq<char>,
) -> bool {
    d.state == "device"@ && d.connection_kind == kind && d.serial != src.serial
        && same_phone_spec(src, d, src_hw, d_hw)
}

/// The other transports of the phone `src`, in list order.
pub open spec fn siblings(
    ds: Seq<DeviceView>,
    hw: Seq<Option<Seq<char>>>,
    src: DeviceView,
    src_hw: Option<Seq<char>>,
    kind: Seq<char>,
) -> Seq<DeviceView>
    decreases ds.len(),
{
    if ds.len() == 0 {
        Seq::<DeviceView>::empty()
    } else {
        let prev = siblings(ds.drop_last(), hw, src, src_hw, kind);
        if is_sibling(ds.last(), hw_at(hw, ds.len() - 1), src, src_hw, kind) {
            prev.push(ds.last())
        } else {
            prev
        }
    }
}

pub open spec fn lost_phone() -> Seq<char> {
    "The selected phone is no longer visible to ADB."@
}

/// The one other transport of the kind `kind` of the phone listed as `serial`; none when
/// there is none or more than one.
pub open spec fn sibling_spec(
    ds: Seq<DeviceView>,
    hw: Seq<Option<Seq<char>>>,
    serial: Seq<char>,
    kind: Seq<char>,
) -> Result<Option<DeviceView>, Seq<char>> {
    match crate::devices::device_index(ds, serial) {
        None => Err(lost_phone()),
        Some(k) => {
            let c = siblings(ds, hw, ds[k], hw_at(hw, k), kind);
            Ok(
                if c.len() == 1 {
                    Some(c[0])
                } else {
                    None
                },
            )
        },
    }
}

pub open spec fn sibling_view(r: Result<Option<DeviceInfo>, String>) -> Result<
    Option<DeviceView>,
    Seq<char>,
> {
    match r {
        Ok(Some(d)) => Ok(Some(d@)),
        Ok(None) => Ok(None),
        Err(e) => Err(e@),
    }
}

pub fn copy_device(d: &DeviceInfo) -> (r: DeviceInfo)
    ensures
        r@ == d@,
{
    DeviceInfo {
        serial: d.serial.clone(),
        state: d.state.clone(),
        model: crate::text::copy_opt_string(&d.model),
        product: crate::text::copy_opt_string(&d.product),
        device: crate::text::copy_opt_string(&d.device),
        connection_kind: d.connection_kind.clone(),
    }
}

fn hw_get(hardware: &Vec<Option<String>>, i: usize) -> (r: Option<String>)
    ensures
        opt_view(r) == hw_at(hw_views(hardware@), i as int),
{
    if i < hardware.len() {
        crate::text::copy_opt_string(&hardware[i])
    } else {
        None
    }
}

/// `hardware[i]` is the hardware serial read from `devices[i]` (missing entries count as
/// unknown).
pub fn sibling_transport(
    devices: &Vec<DeviceInfo>,
    hardware: &Vec<Option<String>>,
    serial: &str,
    target_kind: &str,
) -> (r: Result<Option<DeviceInfo>, String>)
    ensures
        sibling_view(r) == sibling_spec(
            device_views(devices@),
            hw_views(hardware@),
            serial@,
            target_kind@,
        ),
{
    let ghost dv = device_views(devices@);
    let ghost hv = hw_views(hardware@);
    let k = match crate::devices::find_device(devices, serial) {
        Some(k) => k,
        None => return Err(String::from_str("The selected phone is no longer visible to ADB.")),
    };
    proof {
        crate::devices::lemma_device_index(dv, serial@);
    }
    let source = &devices[k];
    let source_hw = hw_get(hardware, k);
    let ghost sv = dv[k as int];
    let ghost shw = hw_at(hv, k as int);
    let mut count: usize = 0;
    let mut first: usize = 0;
    let mut i: usize = 0;
    while i < devices.len()
        invariant
            i <= devices@.len(),
            dv == device_views(devices@),
            hv == hw_views(hardware@),
            k < devices@.len(),
            source == devices@[k as int],
            sv == dv[k as int],
            opt_view(source_hw) == shw,
            count == siblings(dv.take(i as int), hv, sv, shw, target_kind@).len(),
            count <= i,
            count > 0 ==> first < i && siblings(dv.take(i as int), hv, sv, shw, target_kind@)[0]
                == dv[first as int],
        decreases devices@.len() - i,
    {
        let ghost pre = dv.take(i as int);
        assert(dv.take(i + 1 as int).drop_last() =~= pre);
        assert(dv.take(i + 1 as int).last() == dv[i as int]);
        assert(dv[i as int] == devices@[i as int]@);
        let d = &devices[i];
        let d_hw = hw_get(hardware, i);
        let hit = str_is(&d.state, "device") && str_is(&d.connection_kind, target_kind)
            && !str_is(&d.serial, source.serial.as_str()) && same_physical_phone(
            source,
            d,
            &source_hw,
            &d_hw,
        );
        if hit {
            if count == 0 {
                first = i;
            }
            count += 1;
        }
        i += 1;
    }
    assert(dv.take(devices@.len() as int) =~= dv);
    if count == 1 {
        Ok(Some(copy_device(&devices[first])))
    } else {
        Ok(None)
    }
}

// ---------------------------------------------------------------------------
// Remembered addresses
// ---------------------------------------------------------------------------

/// One remembered wireless address.
pub struct SavedWirelessDevice {
    pub address: String,
    pub label: String,
    pub last_used: u64,
}

/// The remembered wireless addresses, most recently used first.
pub struct WirelessStore {
    pub devices: Vec<SavedWirelessDevice>,
}

/// A remembered address as plain values.
pub struct SavedView {
    pub address: Seq<char>,
    pub label: Seq<char>,
    pub last_used: u64,
}

impl View for SavedWirelessDevice {
    type V = SavedView;

    open spec fn view(&self) -> SavedView {
        SavedView { address: self.address@, label: self.label@, last_used: self.last_used }
    }
}

pub open spec fn saved_views(s: Seq<SavedWirelessDevice>) -> Seq<SavedView> {
    s.map_values(|d: SavedWirelessDevice| d@)
}

/// Where `x` goes in a list that is most recent first: after every entry used at the same
/// time or later.
pub open spec fn recency_pos<A>(r: Seq<A>, x: A, key: spec_fn(A) -> u64) -> int
    decreases r.len(),
{
    if r.len() == 0 || key(r[0]) < key(x) {
        0
    } else {
        1 + recency_pos(r.drop_first(), x, key)
    }
}

/// The entries most recent first, those used at the same time in their original order.
pub open spec fn by_recency<A>(s: Seq<A>, key: spec_fn(A) -> u64) -> Seq<A>
    decreases s.len(),
{
    if s.len() == 0 {
        s
    } else {
        let r = by_recency(s.drop_last(), key);
        r.insert(recency_pos(r, s.last(), key), s.last())
    }
}

pub open spec fn saved_key() -> spec_fn(SavedView) -> u64 {
    |d: SavedView| d.last_used
}

pub open spec fn raw_key() -> spec_fn(SavedWirelessDevice) -> u64 {
    |d: SavedWirelessDevice| d.last_used
}

proof fn lemma_recency_pos_bounds<A>(r: Seq<A>, x: A, key: spec_fn(A) -> u64)
    ensures
        0 <= recency_pos(r, x, key) <= r.len(),
        forall|j: int| 0 <= j < recency_pos(r, x, key) ==> key(#[trigger] r[j]) >= key(x),
        recency_pos(r, x, key) < r.len() ==> key(r[recency_pos(r, x, key)]) < key(x),
    decreases r.len(),
{
    if r.len() > 0 && key(r[0]) >= key(x) {
        lemma_recency_pos_bounds(r.drop_first(), x, key);
        assert forall|j: int| 0 <= j < recency_pos(r, x, key) implies key(#[trigger] r[j]) >= key(
            x,
        ) by {
            if j > 0 {
                assert(r[j] == r.drop_first()[j - 1]);
            }
        }
    }
}

proof fn lemma_recency_pos_skip<A>(r: Seq<A>, x: A, key: spec_fn(A) -> u64, k: int)
    requires
        0 <= k <= r.len(),
        forall|j: int| 0 <= j < k ==> key(#[trigger] r[j]) >= key(x),
    ensures
        recency_pos(r, x, key) == k + recency_pos(r.skip(k), x, key),
    decreases k,
{
    if k > 0 {
        assert(r.drop_first().skip(k - 1) =~= r.skip(k));
        lemma_recency_pos_skip(r.drop_first(), x, key, k - 1);
    } else {
        assert(r.skip(0) =~= r);
    }
}

/// Sorting by recency gives a list in which no entry is more recent than one before it.
pub proof fn lemma_by_recency_sorted<A>(s: Seq<A>, key: spec_fn(A) -> u64)
    ensures
        by_recency(s, key).len() == s.len(),
        forall|i: int, j: int|
            0 <= i < j < s.len() ==> key(#[trigger] by_recency(s, key)[i]) >= key(
                #[trigger] by_recency(s, key)[j],
            ),
    decreases s.len(),
{
    if s.len() > 0 {
        let r = by_recency(s.drop_last(), key);
        let x = s.last();
        lemma_by_recency_sorted(s.drop_last(), key);
        lemma_recency_pos_bounds(r, x, key);
        let p = recency_pos(r, x, key);
        let t = r.insert(p, x);
        assert(t == by_recency(s, key));
        assert forall|i: int, j: int| 0 <= i < j < s.len() implies key(#[trigger] t[i]) >= key(
            #[trigger] t[j],
        ) by {
            if i < p && j < p {
                assert(t[i] == r[i] && t[j] == r[j]);
            } else if i < p && j == p {
                assert(t[i] == r[i]);
            } else if i < p {
                assert(t[i] == r[i] && t[j] == r[j - 1]);
            } else if i == p {
                assert(t[j] == r[j - 1]);
                assert(key(r[p]) < key(x));
                if j - 1 > p {
                    assert(key(r[p]) >= key(r[j - 1]));
                }
            } else {
                assert(t[i] == r[i - 1] && t[j] == r[j - 1]);
            }
        }
    }
}

/// Sorting by recency neither adds nor loses an entry.
pub proof fn lemma_by_recency_permutes<A>(s: Seq<A>, key: spec_fn(A) -> u64)
    ensures
        by_recency(s, key).to_multiset() == s.to_multiset(),
    decreases s.len(),
{
    broadcast use vstd::seq_lib::to_multiset_insert, vstd::seq_lib::to_multiset_build;

    if s.len() > 0 {
        let r = by_recency(s.drop_last(), key);
        lemma_by_recency_permutes(s.drop_last(), key);
        lemma_recency_pos_bounds(r, s.last(), key);
        assert(s.drop_last().push(s.last()) =~= s);
    }
}

proof fn lemma_recency_pos_map<A, B>(
    r: Seq<A>,
    x: A,
    f: spec_fn(A) -> B,
    ka: spec_fn(A) -> u64,
    kb: spec_fn(B) -> u64,
)
    requires
        forall|y: A| #[trigger] kb(f(y)) == ka(y),
    ensures
        recency_pos(r.map_values(f), f(x), kb) == recency_pos(r, x, ka),
    decreases r.len(),
{
    if r.len() > 0 {
        assert(r.map_values(f).drop_first() =~= r.drop_first().map_values(f));
        assert(kb(f(r[0])) == ka(r[0]));
        assert(kb(f(x)) == ka(x));
        lemma_recency_pos_map(r.drop_first(), x, f, ka, kb);
    }
}

/// Sorting by recency and then mapping each entry gives what mapping and then sorting gives,
/// when the mapping keeps the time of use.
pub proof fn lemma_by_recency_map<A, B>(
    s: Seq<A>,
    f: spec_fn(A) -> B,
    ka: spec_fn(A) -> u64,
    kb: spec_fn(B) -> u64,
)
    requires
        forall|y: A| #[trigger] kb(f(y)) == ka(y),
    ensures
        by_recency(s.map_values(f), kb) == by_recency(s, ka).map_values(f),
    decreases s.len(),
{
    if s.len() > 0 {
        let x = s.last();
        assert(s.map_values(f).drop_last() =~= s.drop_last().map_values(f));
        assert(s.map_values(f).last() == f(x));
        lemma_by_recency_map(s.drop_last(), f, ka, kb);
        let r = by_recency(s.drop_last(), ka);
        lemma_recency_pos_map(r, x, f, ka, kb);
        lemma_recency_pos_bounds(r, x, ka);
        let p = recency_pos(r, x, ka);
        assert(r.insert(p, x).map_values(f) =~= r.map_values(f).insert(p, f(x)));
    }
}

/// Sorts remembered addresses most recent first, keeping the order of equal times.
fn sort_by_recency(v: Vec<SavedWirelessDevice>) -> (r: Vec<SavedWirelessDevice>)
    ensures
        r@ == by_recency(v@, raw_key()),
{
    let ghost sv = v@;
    let ghost key = raw_key();
    let n = v.len();
    assert(sv.len() == n);
    let mut rest = v;
    let mut out: Vec<SavedWirelessDevice> = Vec::new();
    let mut i: usize = 0;
    while rest.len() > 0
        invariant
            i + rest@.len() == sv.len(),
            sv.len() <= usize::MAX,
            rest@ == sv.skip(i as int),
            out@ == by_recency(sv.take(i as int), key),
            key == raw_key(),
        decreases rest@.len(),
    {
        let x = rest.remove(0);
        assert(rest@ =~= sv.skip(i + 1));
        assert(sv.take(i + 1 as int).drop_last() =~= sv.take(i as int));
        assert(sv.take(i + 1 as int).last() == x);
        let ghost r0 = out@;
        let mut k: usize = 0;
        while k < out.len() && out[k].last_used >= x.last_used
            invariant
                k <= out@.len(),
                r0 == out@,
                key == raw_key(),
                forall|j: int| 0 <= j < k ==> key(#[trigger] r0[j]) >= key(x),
            decreases out@.len() - k,
        {
            k += 1;
        }
        proof {
            lemma_recency_pos_skip(r0, x, key, k as int);
        }
        out.insert(k, x);
        i += 1;
    }
    assert(sv.take(sv.len() as int) =~= sv);
    out
}

/// Where the address is in the list.
pub open spec fn saved_index(s: Seq<SavedView>, address: Seq<char>) -> Option<int>
    decreases s.len(),
{
    if s.len() == 0 {
        None
    } else {
        match saved_index(s.drop_last(), address) {
            Some(k) => Some(k),
            None => if s.last().address == address {
                Some(s.len() - 1)
            } else {
                None
            },
        }
    }
}

proof fn lemma_saved_index(s: Seq<SavedView>, address: Seq<char>)
    ensures
        saved_index(s, address) matches Some(k) ==> 0 <= k < s.len() && s[k].address == address
            && forall|j: int| 0 <= j < k ==> s[j].address != address,
        saved_index(s, address) is None ==> forall|j: int|
            0 <= j < s.len() ==> s[j].address != address,
    decreases s.len(),
{
    if s.len() > 0 {
        lemma_saved_index(s.drop_last(), address);
        assert(forall|j: int| 0 <= j < s.len() - 1 ==> s.drop_last()[j] == s[j]);
    }
}

/// The list after a connection to `address` at time `now`, before sorting: the entry for the
/// address gets the new label and time, or a new entry is added at the end.
pub open spec fn touched(s: Seq<SavedView>, address: Seq<char>, label: Seq<char>, now: u64) -> Seq<
    SavedView,
> {
    match saved_index(s, address) {
        Some(k) => s.update(k, SavedView { address: s[k].address, label, last_used: now }),
        None => s.push(SavedView { address, label, last_used: now }),
    }
}

/// What remembering an address does to the list.
pub open spec fn remember_spec(s: Seq<SavedView>, address: Seq<char>, label: Seq<char>, now: u64) -> Seq<
    SavedView,
> {
    by_recency(touched(s, address, label, now), saved_key())
}

fn find_saved(devices: &Vec<SavedWirelessDevice>, address: &str) -> (r: Option<usize>)
    ensures
        r matches Some(k) ==> k < devices@.len() && saved_index(saved_views(devices@), address@)
            == Some(k as int),
        r is None ==> saved_index(saved_views(devices@), address@) is None,
{
    let ghost sv = saved_views(devices@);
    let mut i: usize = 0;
    while i < devices.len()
        invariant
            i <= devices@.len(),
            sv == saved_views(devices@),
            forall|j: int| 0 <= j < i ==> sv[j].address != address@,
        decreases devices@.len() - i,
    {
        assert(sv[i as int] == devices@[i as int]@);
        if str_is(&devices[i].address, address) {
            proof {
                lemma_saved_index(sv, address@);
                if saved_index(sv, address@) is None {
                    assert(sv[i as int].address == address@);
                }
            }
            return Some(i);
        }
        i += 1;
    }
    proof {
        lemma_saved_index(sv, address@);
        if saved_index(sv, address@) is Some {
            let k = saved_index(sv, address@)->0;
            assert(sv[k].address == address@);
        }
    }
    None
}

proof fn lemma_saved_sort_views(s: Seq<SavedWirelessDevice>)
    ensures
        saved_views(by_recency(s, raw_key())) == by_recency(saved_views(s), saved_key()),
{
    let f = |d: SavedWirelessDevice| d@;
    assert forall|y: SavedWirelessDevice| #[trigger] saved_key()(f(y)) == raw_key()(y) by {}
    lemma_by_recency_map(s, f, raw_key(), saved_key());
}

/// Records a successful connection to `address` at time `now`: the remembered entry gets
/// the label and time, or a new one is added, and the list is sorted most recent first.
/// `model_output` is what reading the phone's model over the address printed.
pub fn remember_address(
    store: &mut WirelessStore,
    address: &str,
    model_output: Option<&str>,
    now: u64,
)
    ensures
        saved_views(final(store).devices@) == remember_spec(
            saved_views(old(store).devices@),
            address@,
            label_spec(opt_str_view(model_output), address@),
            now,
        ),
{
    let label = connected_model(model_output, address);
    let ghost before = saved_views(store.devices@);
    let mut devices = Vec::new();
    core::mem::swap(&mut devices, &mut store.devices);
    match find_saved(&devices, address) {
        Some(k) => {
            let old_address = devices[k].address.clone();
            devices.set(k, SavedWirelessDevice { address: old_address, label, last_used: now });
            assert(saved_views(devices@) =~= touched(before, address@, label@, now));
        },
        None => {
            devices.push(
                SavedWirelessDevice { address: String::from_str(address), label, last_used: now },
            );
            assert(saved_views(devices@) =~= touched(before, address@, label@, now));
        },
    }
    let ghost raw = devices@;
    let sorted = sort_by_recency(devices);
    proof {
        lemma_saved_sort_views(raw);
    }
    store.devices = sorted;
}

/// The list without any entry for the address, otherwise in order.
pub open spec fn without_address(s: Seq<SavedView>, address: Seq<char>) -> Seq<SavedView>
    decreases s.len(),
{
    if s.len() == 0 {
        s
    } else if s.last().address == address {
        without_address(s.drop_last(), address)
    } else {
        without_address(s.drop_last(), address).push(s.last())
    }
}

/// Drops every remembered entry for the address.
pub fn forget_address(store: &mut WirelessStore, address: &str)
    ensures
        saved_views(final(store).devices@) == without_address(
            saved_views(old(store).devices@),
            address@,
        ),
{
    let mut devices = Vec::new();
    core::mem::swap(&mut devices, &mut store.devices);
    let ghost sv = saved_views(devices@);
    let mut kept: Vec<SavedWirelessDevice> = Vec::new();
    let mut i: usize = 0;
    while i < devices.len()
        invariant
            i <= devices@.len(),
            sv == saved_views(devices@),
            saved_views(kept@) == without_address(sv.take(i as int), address@),
        decreases devices@.len() - i,
    {
        assert(sv.take(i + 1 as int).drop_last() =~= sv.take(i as int));
        assert(sv.take(i + 1 as int).last() == devices@[i as int]@);
        if !str_is(&devices[i].address, address) {
            let d = SavedWirelessDevice {
                address: devices[i].address.clone(),
                label: devices[i].label.clone(),
                last_used: devices[i].last_used,
            };
            let ghost b = saved_views(kept@);
            kept.push(d);
            assert(saved_views(kept@) =~= b.push(devices@[i as int]@));
        }
        i += 1;
    }
    assert(sv.take(devices@.len() as int) =~= sv);
    store.devices = kept;
}

/// A remembered address as the interface lists it.
pub struct RememberedView {
    pub address: Seq<char>,
    pub label: Seq<char>,
    pub connected: bool,
    pub last_used: u64,
}

impl View for RememberedWirelessDevice {
    type V = RememberedView;

    open spec fn view(&self) -> RememberedView {
        RememberedView {
            address: self.address@,
            label: self.label@,
            connected: self.connected,
            last_used: self.last_used,
        }
    }
}

pub open spec fn remembered_views(s: Seq<RememberedWirelessDevice>) -> Seq<RememberedView> {
    s.map_values(|d: RememberedWirelessDevice| d@)
}

/// The address is an authorized device in the current list.
pub open spec fn is_connected(ds: Seq<DeviceView>, address: Seq<char>) -> bool {
    exists|j: int| 0 <= j < ds.len() && (#[trigger] ds[j]).serial == address && ds[j].state == "device"@
}

pub open spec fn listed(d: SavedView, ds: Seq<DeviceView>) -> RememberedView {
    RememberedView {
        address: d.address,
        label: d.label,
        connected: is_connected(ds, d.address),
        last_used: d.last_used,
    }
}

pub open spec fn listed_key() -> spec_fn(RememberedView) -> u64 {
    |d: RememberedView| d.last_used
}

/// The remembered addresses with whether each is connected, most recent first.
pub open spec fn remembered_spec(s: Seq<SavedView>, ds: Seq<DeviceView>) -> Seq<RememberedView> {
    by_recency(s.map_values(|d: SavedView| listed(d, ds)), listed_key())
}

fn connected_now(devices: &Vec<DeviceInfo>, address: &String) -> (b: bool)
    ensures
        b == is_connected(device_views(devices@), address@),
{
    let ghost dv = device_views(devices@);
    let mut i: usize = 0;
    while i < devices.len()
        invariant
            i <= devices@.len(),
            dv == device_views(devices@),
            forall|j: int| 0 <= j < i ==> !(dv[j].serial == address@ && dv[j].state == "device"@),
        decreases devices@.len() - i,
    {
        assert(dv[i as int] == devices@[i as int]@);
        if str_is(&devices[i].serial, address.as_str()) && str_is(&devices[i].state, "device") {
            return true;
        }
        i += 1;
    }
    false
}

/// `connected` is the current device list (empty when it could not be read).
pub fn list_remembered_wireless(store: &WirelessStore, connected: &Vec<DeviceInfo>) -> (r: Vec<
    RememberedWirelessDevice,
>)
    ensures
        remembered_views(r@) == remembered_spec(
            saved_views(store.devices@),
            device_views(connected@),
        ),
{
    let ghost dv = device_views(connected@);
    let mut copy: Vec<SavedWirelessDevice> = Vec::new();
    let mut i: usize = 0;
    while i < store.devices.len()
        invariant
            i <= store.devices@.len(),
            saved_views(copy@) == saved_views(store.devices@).take(i as int),
        decreases store.devices@.len() - i,
    {
        let d = &store.devices[i];
        let ghost b = saved_views(copy@);
        assert(saved_views(store.devices@)[i as int] == store.devices@[i as int]@);
        assert(saved_views(store.devices@).take(i + 1 as int) =~= b.push(store.devices@[i as int]@));
        copy.push(
            SavedWirelessDevice {
                address: d.address.clone(),
                label: d.label.clone(),
                last_used: d.last_used,
            },
        );
        assert(saved_views(copy@) =~= saved_views(store.devices@).take(i + 1 as int));
        i += 1;
    }
    assert(saved_views(store.devices@).take(store.devices@.len() as int) =~= saved_views(
        store.devices@,
    ));
    let ghost raw = copy@;
    let sorted = sort_by_recency(copy);
    proof {
        lemma_saved_sort_views(raw);
    }
    let ghost ss = saved_views(sorted@);
    let mut out: Vec<RememberedWirelessDevice> = Vec::new();
    let mut j: usize = 0;
    while j < sorted.len()
        invariant
            j <= sorted@.len(),
            ss == saved_views(sorted@),
            dv == device_views(connected@),
            remembered_views(out@) == ss.take(j as int).map_values(|d: SavedView| listed(d, dv)),
        decreases sorted@.len() - j,
    {
        let d = &sorted[j];
        let c = connected_now(connected, &d.address);
        let ghost b = remembered_views(out@);
        out.push(
            RememberedWirelessDevice {
                address: d.address.clone(),
                label: d.label.clone(),
                connected: c,
                last_used: d.last_used,
            },
        );
        assert(ss[j as int] == sorted@[j as int]@);
        assert(remembered_views(out@) =~= b.push(listed(ss[j as int], dv)));
        assert(ss.take(j + 1 as int).map_values(|d: SavedView| listed(d, dv)) =~= ss.take(
            j as int,
        ).map_values(|d: SavedView| listed(d, dv)).push(listed(ss[j as int], dv)));
        j += 1;
    }
    assert(ss.take(sorted@.len() as int) =~= ss);
    proof {
        let f = |d: SavedView| listed(d, dv);
        assert forall|y: SavedView| #[trigger] listed_key()(f(y)) == saved_key()(y) by {}
        lemma_by_recency_map(saved_views(store.devices@), f, saved_key(), listed_key());
    }
    out
}

/// No two entries share an address.
pub open spec fn unique_addresses(s: Seq<SavedView>) -> bool {
    forall|i: int, j: int|
        0 <= i < j < s.len() ==> (#[trigger] s[i]).address != (#[trigger] s[j]).address
}

proof fn lemma_by_recency_contains(s: Seq<SavedView>, y: SavedView)
    ensures
        by_recency(s, saved_key()).contains(y) == s.contains(y),
{
    lemma_by_recency_permutes(s, saved_key());
    vstd::seq_lib::to_multiset_contains(s, y);
    vstd::seq_lib::to_multiset_contains(by_recency(s, saved_key()), y);
}

proof fn lemma_by_recency_unique(s: Seq<SavedView>)
    requires
        unique_addresses(s),
    ensures
        unique_addresses(by_recency(s, saved_key())),
    decreases s.len(),
{
    if s.len() > 0 {
        let d = s.drop_last();
        let x = s.last();
        assert(unique_addresses(d)) by {
            assert forall|i: int, j: int| 0 <= i < j < d.len() implies (#[trigger] d[i]).address
                != (#[trigger] d[j]).address by {
                assert(d[i] == s[i] && d[j] == s[j]);
            }
        }
        lemma_by_recency_unique(d);
        let r = by_recency(d, saved_key());
        lemma_by_recency_sorted(d, saved_key());
        lemma_recency_pos_bounds(r, x, saved_key());
        let p = recency_pos(r, x, saved_key());
        let t = r.insert(p, x);
        assert forall|j: int| 0 <= j < r.len() implies (#[trigger] r[j]).address != x.address by {
            lemma_by_recency_contains(d, r[j]);
            assert(r.contains(r[j]));
            let m = choose|m: int| 0 <= m < d.len() && d[m] == r[j];
            assert(s[m] == d[m]);
            assert(s[s.len() - 1] == x);
        }
        assert forall|i: int, j: int| 0 <= i < j < t.len() implies (#[trigger] t[i]).address
            != (#[trigger] t[j]).address by {
            if i < p {
                assert(t[i] == r[i]);
            } else if i > p {
                assert(t[i] == r[i - 1]);
            }
            if j < p {
                assert(t[j] == r[j]);
            } else if j > p {
                assert(t[j] == r[j - 1]);
            }
        }
    }
}

/// After remembering an address the list holds exactly one entry for it, with the new label
/// and time, and is sorted most recent first; the other addresses stay listed.
pub proof fn lemma_remember_records(s: Seq<SavedView>, address: Seq<char>, label: Seq<char>, now: u64)
    requires
        unique_addresses(s),
    ensures
        remember_spec(s, address, label, now).contains(
            SavedView { address: address, label: label, last_used: now },
        ),
        unique_addresses(remember_spec(s, address, label, now)),
        forall|i: int, j: int|
            0 <= i < j < remember_spec(s, address, label, now).len() ==> (#[trigger] remember_spec(
                s,
                address,
                label,
                now,
            )[i]).last_used >= (#[trigger] remember_spec(s, address, label, now)[j]).last_used,
        forall|i: int|
            0 <= i < s.len() && (#[trigger] s[i]).address != address ==> remember_spec(
                s,
                address,
                label,
                now,
            ).contains(s[i]),
{
    let t = touched(s, address, label, now);
    let e = SavedView { address: address, label: label, last_used: now };
    lemma_saved_index(s, address);
    match saved_index(s, address) {
        Some(k) => {
            assert(t[k] == e);
            assert forall|i: int, j: int| 0 <= i < j < t.len() implies (#[trigger] t[i]).address
                != (#[trigger] t[j]).address by {
                assert(t[i].address == s[i].address);
                assert(t[j].address == s[j].address);
            }
            assert forall|i: int| 0 <= i < s.len() && (#[trigger] s[i]).address != address implies t.contains(
                s[i],
            ) by {
                assert(t[i] == s[i]);
            }
        },
        None => {
            assert(t[s.len() as int] == e);
            assert forall|i: int| 0 <= i < s.len() && (#[trigger] s[i]).address != address implies t.contains(
                s[i],
            ) by {
                assert(t[i] == s[i]);
            }
        },
    }
    lemma_by_recency_contains(t, e);
    lemma_by_recency_unique(t);
    lemma_by_recency_sorted(t, saved_key());
    assert forall|i: int| 0 <= i < s.len() && (#[trigger] s[i]).address != address implies remember_spec(
        s,
        address,
        label,
        now,
    ).contains(s[i]) by {
        lemma_by_recency_contains(t, s[i]);
    }
}

/// Forgetting an address leaves no entry for it and keeps every other entry.
pub proof fn lemma_forget_removes(s: Seq<SavedView>, address: Seq<char>)
    ensures
        forall|i: int|
            0 <= i < without_address(s, address).len() ==> (#[trigger] without_address(
                s,
                address,
            )[i]).address != address,
        forall|i: int|
            0 <= i < s.len() && (#[trigger] s[i]).address != address ==> without_address(
                s,
                address,
            ).contains(s[i]),
    decreases s.len(),
{
    if s.len() > 0 {
        let d = s.drop_last();
        lemma_forget_removes(d, address);
        let w = without_address(d, address);
        assert forall|i: int| 0 <= i < s.len() && (#[trigger] s[i]).address != address implies without_address(
            s,
            address,
        ).contains(s[i]) by {
            if i < s.len() - 1 {
                assert(d[i] == s[i]);
                assert(w.contains(d[i]));
                let m = choose|m: int| 0 <= m < w.len() && w[m] == d[i];
                assert(without_address(s, address)[m] == w[m]);
            } else {
                assert(without_address(s, address) == w.push(s.last()));
                assert(without_address(s, address)[w.len() as int] == s[i]);
            }
        }
    }
}

// ---------------------------------------------------------------------------
// Switching transports
// ---------------------------------------------------------------------------

/// A transport switch as plain values.
pub struct SwitchView {
    pub active_serial: Seq<char>,
    pub active_connection: Seq<char>,
    pub message: Seq<char>,
    pub safe_to_unplug_usb: bool,
}

impl View for TransportSwitchResult {
    type V = SwitchView;

    open spec fn view(&self) -> SwitchView {
        SwitchView {
            active_serial: self.active_serial@,
            active_connection: self.active_connection@,
            message: self.message@,
            safe_to_unplug_usb: self.safe_to_unplug_usb,
        }
    }
}

pub open spec fn sw(serial: Seq<char>, connection: Seq<char>, message: Seq<char>, unplug: bool) -> SwitchView {
    SwitchView {
        active_serial: serial,
        active_connection: connection,
        message: message,
        safe_to_unplug_usb: unplug,
    }
}

fn switch_result(serial: String, connection: &str, message: &str, unplug: bool) -> (r: TransportSwitchResult)
    ensures
        r@ == sw(serial@, connection@, message@, unplug),
{
    TransportSwitchResult {
        active_serial: serial,
        active_connection: String::from_str(connection),
        message: String::from_str(message),
        safe_to_unplug_usb: unplug,
    }
}

/// What forgetting a wireless address reports, given the phone's USB transport if it has one.
pub open spec fn forget_result_spec(usb: Option<DeviceView>) -> SwitchView {
    match usb {
        Some(d) => sw(
            d.serial,
            "usb"@,
            "Wireless connection disconnected and forgotten. USB is now selected."@,
            false,
        ),
        None => sw(Seq::<char>::empty(), "none"@, "Wireless connection disconnected and forgotten."@, false),
    }
}

pub open spec fn opt_device_view(o: Option<DeviceInfo>) -> Option<DeviceView> {
    match o {
        Some(d) => Some(d@),
        None => None,
    }
}

pub fn forget_result(usb_sibling: &Option<DeviceInfo>) -> (r: TransportSwitchResult)
    ensures
        r@ == forget_result_spec(opt_device_view(*usb_sibling)),
{
    match usb_sibling {
        Some(d) => switch_result(
            d.serial.clone(),
            "usb",
            "Wireless connection disconnected and forgotten. USB is now selected.",
            false,
        ),
        None => switch_result(String::new(), "none", "Wireless connection disconnected and forgotten.", false),
    }
}

/// Whether the phone listed as `serial` can be switched from USB to Wi-Fi.
pub open spec fn usb_wireless_check_spec(ds: Seq<DeviceView>, serial: Seq<char>) -> Result<(), Seq<char>> {
    match crate::devices::device_index(ds, serial) {
        None => Err("The selected USB device is no longer connected."@),
        Some(k) => if ds[k].state != "device"@ {
            Err("The selected device is not authorized for ADB."@)
        } else if ds[k].connection_kind != "usb"@ {
            Err("This device is already connected wirelessly."@)
        } else {
            Ok(())
        },
    }
}

pub open spec fn unit_view(r: Result<(), String>) -> Result<(), Seq<char>> {
    match r {
        Ok(()) => Ok(()),
        Err(e) => Err(e@),
    }
}

pub fn usb_wireless_check(devices: &Vec<DeviceInfo>, serial: &str) -> (r: Result<(), String>)
    ensures
        unit_view(r) == usb_wireless_check_spec(device_views(devices@), serial@),
{
    let ghost dv = device_views(devices@);
    match crate::devices::find_device(devices, serial) {
        None => Err(String::from_str("The selected USB device is no longer connected.")),
        Some(k) => {
            assert(dv[k as int] == devices@[k as int]@);
            if !str_is(&devices[k].state, "device") {
                Err(String::from_str("The selected device is not authorized for ADB."))
            } else if !str_is(&devices[k].connection_kind, "usb") {
                Err(String::from_str("This device is already connected wirelessly."))
            } else {
                Ok(())
            }
        },
    }
}

/// The `adb` arguments that make a USB phone listen for wireless debugging on port 5555.
pub fn tcpip_args(serial: &str) -> (r: Vec<String>)
    ensures
        crate::text::strs(r@) == seq!["-s"@, serial@, "tcpip"@, "5555"@],
{
    let mut v: Vec<String> = Vec::new();
    v.push(String::from_str("-s"));
    v.push(String::from_str(serial));
    v.push(String::from_str("tcpip"));
    v.push(String::from_str("5555"));
    assert(crate::text::strs(v@) =~= seq!["-s"@, serial@, "tcpip"@, "5555"@]);
    v
}

/// The wireless address of a phone at `ip`.
pub fn wireless_address(ip: &String) -> (r: String)
    ensures
        r@ == ip@ + ":5555"@,
{
    crate::text::plus_lit(ip, ":5555")
}

/// What switching a USB phone to Wi-Fi reports once it is connected at `address`.
pub fn wireless_enabled(address: &String) -> (r: TransportSwitchResult)
    ensures
        r@ == sw(
            address@,
            "wireless"@,
            "Wireless connection established at "@ + address@ + ". You can unplug the USB cable now."@,
            true,
        ),
{
    let mut m = crate::text::lit_plus("Wireless connection established at ", address);
    m.append(". You can unplug the USB cable now.");
    TransportSwitchResult {
        active_serial: address.clone(),
        active_connection: String::from_str("wireless"),
        message: m,
        safe_to_unplug_usb: true,
    }
}

/// A switch to USB: what to report, and whether the wireless transport must be dropped.
pub struct UsbSwitch {
    pub result: TransportSwitchResult,
    pub disconnect_wireless: bool,
}

/// Switching the phone listed as `serial` to USB.
pub open spec fn usb_switch_spec(
    ds: Seq<DeviceView>,
    hw: Seq<Option<Seq<char>>>,
    serial: Seq<char>,
) -> Result<(SwitchView, bool), Seq<char>> {
    match crate::devices::device_index(ds, serial) {
        None => Err(lost_phone()),
        Some(k) => if ds[k].connection_kind == "usb"@ {
            Ok((sw(ds[k].serial, "usb"@, "USB is already the active connection."@, false), false))
        } else {
            match sibling_spec(ds, hw, serial, "usb"@) {
                Err(e) => Err(e),
                Ok(None) => Err(
                    "Connect this phone with a USB data cable and approve USB debugging, then try Use USB Instead again."@,
                ),
                Ok(Some(u)) => Ok(
                    (
                        sw(
                            u.serial,
                            "usb"@,
                            "USB connection is active. Wireless ADB has been disconnected."@,
                            false,
                        ),
                        true,
                    ),
                ),
            }
        },
    }
}

pub open spec fn usb_switch_view(r: Result<UsbSwitch, String>) -> Result<(SwitchView, bool), Seq<char>> {
    match r {
        Ok(u) => Ok((u.result@, u.disconnect_wireless)),
        Err(e) => Err(e@),
    }
}

/// `hardware[i]` is the hardware serial read from `devices[i]`.
pub fn switch_to_usb(devices: &Vec<DeviceInfo>, hardware: &Vec<Option<String>>, serial: &str) -> (r:
    Result<UsbSwitch, String>)
    ensures
        usb_switch_view(r) == usb_switch_spec(device_views(devices@), hw_views(hardware@), serial@),
{
    let ghost dv = device_views(devices@);
    let k = match crate::devices::find_device(devices, serial) {
        Some(k) => k,
        None => return Err(String::from_str("The selected phone is no longer visible to ADB.")),
    };
    assert(dv[k as int] == devices@[k as int]@);
    if str_is(&devices[k].connection_kind, "usb") {
        return Ok(
            UsbSwitch {
                result: switch_result(
                    devices[k].serial.clone(),
                    "usb",
                    "USB is already the active connection.",
                    false,
                ),
                disconnect_wireless: false,
            },
        );
    }
    match sibling_transport(devices, hardware, serial, "usb") {
        Err(e) => Err(e),
        Ok(None) => Err(
            String::from_str(
                "Connect this phone with a USB data cable and approve USB debugging, then try Use USB Instead again.",
            ),
        ),
        Ok(Some(u)) => Ok(
            UsbSwitch {
                result: switch_result(
                    u.serial,
                    "usb",
                    "USB connection is active. Wireless ADB has been disconnected.",
                    false,
                ),
                disconnect_wireless: true,
            },
        ),
    }
}

} // verus!
