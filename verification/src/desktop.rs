//! Desktop Mode: reading Android's display and window dumps, the desktop developer
//! settings, and deciding which desktop environment a phone can show.
use vstd::prelude::*;
use crate::models::{DesktopCapabilities, DesktopDiagnostics, DesktopSettingDiagnostic};
use crate::number::{dec, parse_u32, parse_u32_chars, u32_text};
use crate::text::{
    chars_of, contains, contains_str, copy_range, ends_with, ends_with_str, eq_str, find,
    find_str, first_some, index_of_sep, index_where, lemma_find_facts, lemma_first_some_at,
    lemma_first_some_none, lemma_index_where, lines, lines_of, lower, push_str, sep_fn, split,
    split_by, split_once, split_once_char, split_whitespace, split_ws, starts_with,
    starts_with_str, string_of, strs, to_lower, trim, trim_by, trim_fn, trimmed, trimmed_by,
    views, Sep, TrimSet,
};

verus! {

// ---------------------------------------------------------------------------
// Small text helpers
// ---------------------------------------------------------------------------

/// The text without any occurrence of one character.
pub open spec fn without_char(s: Seq<char>, c: char) -> Seq<char>
    decreases s.len(),
{
    if s.len() == 0 {
        s
    } else if s.last() == c {
        without_char(s.drop_last(), c)
    } else {
        without_char(s.drop_last(), c).push(s.last())
    }
}

fn without_char_exec(s: &[char], c: char) -> (r: Vec<char>)
    ensures
        r@ == without_char(s@, c),
{
    let mut r: Vec<char> = Vec::new();
    let mut i: usize = 0;
    while i < s.len()
        invariant
            i <= s@.len(),
            r@ == without_char(s@.take(i as int), c),
        decreases s@.len() - i,
    {
        assert(s@.take(i + 1 as int).drop_last() =~= s@.take(i as int));
        if s[i] != c {
            r.push(s[i]);
        }
        i += 1;
    }
    assert(s@.take(s@.len() as int) =~= s@);
    r
}

/// `str::eq_ignore_ascii_case`.
pub open spec fn eq_ignore_case(a: Seq<char>, b: Seq<char>) -> bool {
    lower(a) == lower(b)
}

pub fn eq_ignore_case_exec(a: &[char], b: &str) -> (r: bool)
    ensures
        r == eq_ignore_case(a@, b@),
{
    let la = to_lower(a);
    let lb = to_lower(&chars_of(b));
    crate::text::eq_chars(&la, &lb)
}

/// The lines joined with a separator (`[..].join(sep)`).
pub open spec fn join(ls: Seq<Seq<char>>, sep: Seq<char>) -> Seq<char>
    decreases ls.len(),
{
    if ls.len() == 0 {
        Seq::<char>::empty()
    } else if ls.len() == 1 {
        ls[0]
    } else {
        join(ls.drop_last(), sep) + sep + ls.last()
    }
}

pub fn join_exec(ls: &[Vec<char>], sep: &str) -> (r: Vec<char>)
    ensures
        r@ == join(views(ls@), sep@),
{
    let sp = chars_of(sep);
    let mut r: Vec<char> = Vec::new();
    let mut i: usize = 0;
    while i < ls.len()
        invariant
            i <= ls@.len(),
            sp@ == sep@,
            r@ == join(views(ls@).take(i as int), sep@),
        decreases ls@.len() - i,
    {
        let ghost prev = views(ls@).take(i as int);
        assert(views(ls@).take(i + 1 as int).drop_last() =~= prev);
        assert(views(ls@).take(i + 1 as int).last() == ls@[i as int]@);
        if i > 0 {
            let mut k: usize = 0;
            let ghost r0 = r@;
            while k < sp.len()
                invariant
                    k <= sp@.len(),
                    r@ == r0 + sp@.take(k as int),
                decreases sp@.len() - k,
            {
                r.push(sp[k]);
                k += 1;
                assert(r@ =~= r0 + sp@.take(k as int));
            }
            assert(sp@.take(sp@.len() as int) =~= sp@);
        }
        let ghost r1 = r@;
        let mut k: usize = 0;
        while k < ls[i].len()
            invariant
                i < ls@.len(),
                k <= ls@[i as int]@.len(),
                r@ == r1 + ls@[i as int]@.take(k as int),
            decreases ls@[i as int]@.len() - k,
        {
            r.push(ls[i][k]);
            k += 1;
            assert(r@ =~= r1 + ls@[i as int]@.take(k as int));
        }
        assert(ls@[i as int]@.take(ls@[i as int]@.len() as int) =~= ls@[i as int]@);
        proof {
            if i == 0 {
                assert(r@ =~= views(ls@).take(1)[0]);
            }
        }
        i += 1;
    }
    assert(views(ls@).take(ls@.len() as int) =~= views(ls@));
    r
}

/// The last line (from the end) that is not blank.
pub open spec fn last_nonblank(ls: Seq<Seq<char>>) -> Option<Seq<char>>
    decreases ls.len(),
{
    if ls.len() == 0 {
        None
    } else if trim(ls.last()).len() > 0 {
        Some(ls.last())
    } else {
        last_nonblank(ls.drop_last())
    }
}

pub fn last_nonblank_exec(ls: &Vec<Vec<char>>) -> (r: Option<usize>)
    ensures
        r matches Some(k) ==> k < ls@.len() && last_nonblank(views(ls@)) == Some(ls@[k as int]@),
        r is None ==> last_nonblank(views(ls@)) is None,
{
    let mut i: usize = ls.len();
    assert(views(ls@).take(i as int) =~= views(ls@));
    while i > 0
        invariant
            i <= ls@.len(),
            last_nonblank(views(ls@)) == last_nonblank(views(ls@).take(i as int)),
        decreases i,
    {
        assert(views(ls@).take(i as int).drop_last() =~= views(ls@).take(i - 1 as int));
        assert(views(ls@).take(i as int).last() == ls@[i - 1]@);
        let t = trimmed(&ls[i - 1]);
        if t.len() > 0 {
            return Some(i - 1);
        }
        i -= 1;
    }
    None
}

// ---------------------------------------------------------------------------
// Error text and output limits
// ---------------------------------------------------------------------------

/// The last non-blank line of a command's output, trimmed, cut to 220 characters.
pub open spec fn compact_error_spec(text: Seq<char>) -> Seq<char> {
    let line = trim(
        match last_nonblank(lines(text)) {
            Some(l) => l,
            None => text,
        },
    );
    if line.len() > 220 {
        line.take(220) + "…"@
    } else {
        line
    }
}

pub fn compact_error(text: &str) -> (r: String)
    ensures
        r@ == compact_error_spec(text@),
{
    let t = chars_of(text);
    let ls = lines_of(&t);
    let line = match last_nonblank_exec(&ls) {
        Some(k) => trimmed(&ls[k]),
        None => trimmed(&t),
    };
    if line.len() > 220 {
        let head = copy_range(&line, 0, 220);
        assert(head@ =~= line@.take(220));
        let mut r = string_of(&head);
        r.append("…");
        r
    } else {
        string_of(&line)
    }
}

/// At most 16 000 characters of captured output, with a note when cut.
pub open spec fn cap_output_spec(text: Seq<char>) -> Seq<char> {
    if text.len() <= 16000 {
        text
    } else {
        text.take(16000) + "\n… output truncated"@
    }
}

pub fn cap_output(text: String) -> (r: String)
    ensures
        r@ == cap_output_spec(text@),
{
    let t = chars_of(text.as_str());
    if t.len() <= 16000 {
        text
    } else {
        let head = copy_range(&t, 0, 16000);
        assert(head@ =~= t@.take(16000));
        let mut r = string_of(&head);
        r.append("\n… output truncated");
        r
    }
}

/// All captured output lines joined by new lines, capped.
pub open spec fn joined_output_spec(ls: Seq<Seq<char>>) -> Seq<char> {
    cap_output_spec(join(ls, "\n"@))
}

pub fn joined_output(lines: &Vec<String>) -> (r: String)
    ensures
        r@ == joined_output_spec(strs(lines@)),
{
    let mut ls: Vec<Vec<char>> = Vec::new();
    let mut i: usize = 0;
    while i < lines.len()
        invariant
            i <= lines@.len(),
            views(ls@) =~= strs(lines@).take(i as int),
        decreases lines@.len() - i,
    {
        let c = chars_of(lines[i].as_str());
        let ghost b = views(ls@);
        ls.push(c);
        assert(views(ls@) =~= b.push(c@));
        i += 1;
    }
    assert(strs(lines@).take(lines@.len() as int) =~= strs(lines@));
    let j = join_exec(&ls, "\n");
    cap_output(string_of(&j))
}

/// The geometry recommended for a virtual display: 1280x720 at 180 dpi over Wi-Fi,
/// otherwise 1920x1080 at 284 dpi on Samsung phones and at 240 dpi elsewhere.
pub open spec fn geometry_spec(brand: Seq<char>, wireless: bool) -> (u32, u32, u32) {
    if wireless {
        (1280, 720, 180)
    } else if contains(lower(brand), "samsung"@) {
        (1920, 1080, 284)
    } else {
        (1920, 1080, 240)
    }
}

pub fn recommended_desktop_geometry(brand: &str, wireless: bool) -> (r: (u32, u32, u32))
    ensures
        r == geometry_spec(brand@, wireless),
{
    if wireless {
        return (1280, 720, 180);
    }
    let lb = to_lower(&chars_of(brand));
    if contains_str(&lb, "samsung") {
        (1920, 1080, 284)
    } else {
        (1920, 1080, 240)
    }
}

// ---------------------------------------------------------------------------
// Numbers after markers
// ---------------------------------------------------------------------------

/// The first run of digits after the first `marker`, as a number.
pub open spec fn number_after(text: Seq<char>, marker: Seq<char>) -> Option<u32> {
    match find(text, marker) {
        None => None,
        Some(k) => {
            let rest = text.skip(k + marker.len());
            match index_where(rest, sep_fn(Sep::Digit)) {
                None => None,
                Some(f) => {
                    let tail = rest.skip(f);
                    let e = match index_where(tail, sep_fn(Sep::NonDigit)) {
                        Some(e) => e,
                        None => tail.len() as int,
                    };
                    parse_u32(tail.take(e))
                },
            }
        },
    }
}

pub fn parse_number_after_of(text: &[char], marker: &str) -> (r: Option<u32>)
    ensures
        r == number_after(text@, marker@),
{
    let m = chars_of(marker);
    match find_str(text, marker) {
        None => None,
        Some(k) => {
            proof {
                lemma_find_facts(text@, marker@);
            }
            assert(k + m.len() <= text.len());
            let rest = copy_range(text, k + m.len(), text.len());
            assert(rest@ =~= text@.skip(k + marker@.len()));
            match index_of_sep(&rest, Sep::Digit) {
                None => {
                    // no digit at all: the collected digits are empty
                    assert(parse_u32(Seq::<char>::empty()) is None);
                    None
                },
                Some(f) => {
                    proof {
                        lemma_index_where(rest@, sep_fn(Sep::Digit));
                    }
                    let tail = copy_range(&rest, f, rest.len());
                    assert(tail@ =~= rest@.skip(f as int));
                    let e = match index_of_sep(&tail, Sep::NonDigit) {
                        Some(e) => {
                            proof {
                                lemma_index_where(tail@, sep_fn(Sep::NonDigit));
                            }
                            e
                        },
                        None => tail.len(),
                    };
                    let digits = copy_range(&tail, 0, e);
                    assert(digits@ =~= tail@.take(e as int));
                    parse_u32_chars(&digits)
                },
            }
        },
    }
}

/// The first number after `marker` in `text`.
pub fn parse_number_after(text: &str, marker: &str) -> (r: Option<u32>)
    ensures
        r == number_after(text@, marker@),
{
    parse_number_after_of(&chars_of(text), marker)
}

// ---------------------------------------------------------------------------
// Settings and package outputs
// ---------------------------------------------------------------------------

/// The package of a `package/activity` line, unless it is empty or holds a space.
pub open spec fn package_of(line: Seq<char>) -> Option<Seq<char>> {
    match split_once(trim(line), '/') {
        Some((p, _)) => if p.len() == 0 || crate::text::index_of(p, ' ') is Some {
            None
        } else {
            Some(p)
        },
        None => None,
    }
}

pub open spec fn package_fn() -> spec_fn(Seq<char>) -> Option<Seq<char>> {
    |l: Seq<char>| package_of(l)
}

/// The package of the last `package/activity` line of `cmd package resolve-activity`.
pub open spec fn launcher_package_spec(text: Seq<char>) -> Option<Seq<char>> {
    first_some(lines(text).reverse(), package_fn())
}

fn package_of_exec(line: &[char]) -> (r: Option<Vec<char>>)
    ensures
        r matches Some(p) ==> package_of(line@) == Some(p@),
        r is None ==> package_of(line@) is None,
{
    let t = trimmed(line);
    match split_once_char(&t, '/') {
        Some((p, _)) => {
            if p.len() == 0 || crate::text::index_of_char(&p, ' ').is_some() {
                None
            } else {
                Some(p)
            }
        },
        None => None,
    }
}

/// The default home package from the output of `cmd package resolve-activity --brief`.
pub fn default_launcher_package(text: &str) -> (r: Option<String>)
    ensures
        crate::text::opt_view(r) == launcher_package_spec(text@),
{
    let ls = lines_of(&chars_of(text));
    let ghost lv = views(ls@);
    let ghost rv = lv.reverse();
    let mut i: usize = ls.len();
    while i > 0
        invariant
            i <= ls@.len(),
            lv == views(ls@),
            lv == lines(text@),
            rv == lv.reverse(),
            forall|j: int| 0 <= j < ls@.len() - i ==> (package_fn())(#[trigger] rv[j]) is None,
        decreases i,
    {
        let p = package_of_exec(&ls[i - 1]);
        assert(rv[ls@.len() - i] == ls@[i - 1]@);
        match p {
            Some(v) => {
                proof {
                    lemma_first_some_at(rv, package_fn(), ls@.len() - i);
                }
                return Some(string_of(&v));
            },
            None => {},
        }
        i -= 1;
    }
    proof {
        lemma_first_some_none(rv, package_fn());
    }
    None
}

/// The value of a global setting from `settings get global KEY`: `None` for empty or `null`.
pub open spec fn setting_value(text: Seq<char>) -> Option<Seq<char>> {
    let v = trim(text);
    if v.len() == 0 || eq_ignore_case(v, "null"@) {
        None
    } else {
        Some(v)
    }
}

pub fn get_global_setting(output: &str) -> (r: Option<String>)
    ensures
        crate::text::opt_view(r) == setting_value(output@),
{
    let v = trimmed(&chars_of(output));
    if v.len() == 0 || eq_ignore_case_exec(&v, "null") {
        None
    } else {
        Some(string_of(&v))
    }
}

/// The `adb shell` arguments that write a global setting.
pub fn put_global_setting(key: &str, value: &str) -> (r: Vec<String>)
    ensures
        strs(r@) == seq!["settings"@, "put"@, "global"@, key@, value@],
{
    let mut r: Vec<String> = Vec::new();
    push_str(&mut r, String::from_str("settings"));
    push_str(&mut r, String::from_str("put"));
    push_str(&mut r, String::from_str("global"));
    push_str(&mut r, String::from_str(key));
    push_str(&mut r, String::from_str(value));
    assert(strs(r@) =~= seq!["settings"@, "put"@, "global"@, key@, value@]);
    r
}

/// The `adb shell` arguments that delete a global setting.
pub fn delete_global_setting(key: &str) -> (r: Vec<String>)
    ensures
        strs(r@) == seq!["settings"@, "delete"@, "global"@, key@],
{
    let mut r: Vec<String> = Vec::new();
    push_str(&mut r, String::from_str("settings"));
    push_str(&mut r, String::from_str("delete"));
    push_str(&mut r, String::from_str("global"));
    push_str(&mut r, String::from_str(key));
    assert(strs(r@) =~= seq!["settings"@, "delete"@, "global"@, key@]);
    r
}

/// A usable hardware serial from `getprop`: trimmed, not empty, not `unknown`.
pub open spec fn serial_value(text: Seq<char>) -> Option<Seq<char>> {
    let v = trim(text);
    if v.len() == 0 || eq_ignore_case(v, "unknown"@) {
        None
    } else {
        Some(v)
    }
}

fn serial_value_exec(text: &str) -> (r: Option<String>)
    ensures
        crate::text::opt_view(r) == serial_value(text@),
{
    let v = trimmed(&chars_of(text));
    if v.len() == 0 || eq_ignore_case_exec(&v, "unknown") {
        None
    } else {
        Some(string_of(&v))
    }
}

/// The key that desktop settings backups are stored under: `ro.serialno`, else
/// `ro.boot.serialno`, else the ADB serial.
pub open spec fn device_key_spec(
    serial: Seq<char>,
    serialno: Option<Seq<char>>,
    boot_serialno: Option<Seq<char>>,
) -> Seq<char> {
    match serialno {
        Some(t) if serial_value(t) is Some => serial_value(t)->0,
        _ => match boot_serialno {
            Some(t) if serial_value(t) is Some => serial_value(t)->0,
            _ => serial,
        },
    }
}

/// `serialno` and `boot_serialno` are the outputs of `getprop` for `ro.serialno` and
/// `ro.boot.serialno`, `None` where the command failed.
pub fn stable_device_key(
    serial: &str,
    serialno: Option<&str>,
    boot_serialno: Option<&str>,
) -> (r: String)
    ensures
        r@ == device_key_spec(
            serial@,
            match serialno {
                Some(t) => Some(t@),
                None => None,
            },
            match boot_serialno {
                Some(t) => Some(t@),
                None => None,
            },
        ),
{
    match serialno {
        Some(t) => match serial_value_exec(t) {
            Some(v) => return v,
            None => {},
        },
        None => {},
    }
    match boot_serialno {
        Some(t) => match serial_value_exec(t) {
            Some(v) => return v,
            None => {},
        },
        None => {},
    }
    String::from_str(serial)
}

/// An OEM overlay boolean from `cmd overlay lookup`: the output ends with `true` or `false`.
pub open spec fn overlay_value(text: Seq<char>) -> Option<bool> {
    let l = lower(trim(text));
    if ends_with(l, "true"@) {
        Some(true)
    } else if ends_with(l, "false"@) {
        Some(false)
    } else {
        None
    }
}

pub fn overlay_bool(output: &str) -> (r: Option<bool>)
    ensures
        r == overlay_value(output@),
{
    let l = to_lower(&trimmed(&chars_of(output)));
    if ends_with_str(&l, "true") {
        Some(true)
    } else if ends_with_str(&l, "false") {
        Some(false)
    } else {
        None
    }
}

/// `true`, `false` or `unknown`.
pub open spec fn optional_bool_spec(v: Option<bool>) -> Seq<char> {
    match v {
        Some(true) => "true"@,
        Some(false) => "false"@,
        None => "unknown"@,
    }
}

pub fn optional_bool(value: Option<bool>) -> (r: &'static str)
    ensures
        r@ == optional_bool_spec(value),
{
    match value {
        Some(true) => "true",
        Some(false) => "false",
        None => "unknown",
    }
}

// ---------------------------------------------------------------------------
// Samsung DeX evidence
// ---------------------------------------------------------------------------

/// `dumpsys desktopmode` reports DeX as running.
pub open spec fn dex_active_spec(text: Seq<char>) -> bool {
    let c = without_char(lower(text), ' ');
    contains(c, "enabled=4"@) || contains(c, "mdesktopmodestate=4"@) || contains(
        c,
        "desktopmode=true"@,
    ) || contains(c, "isdesktopmode=true"@) || contains(c, "state=enabled"@)
}

pub fn is_samsung_dex_active(text: &str) -> (r: bool)
    ensures
        r == dex_active_spec(text@),
{
    let c = without_char_exec(&to_lower(&chars_of(text)), ' ');
    contains_str(&c, "enabled=4") || contains_str(&c, "mdesktopmodestate=4") || contains_str(
        &c,
        "desktopmode=true",
    ) || contains_str(&c, "isdesktopmode=true") || contains_str(&c, "state=enabled")
}

pub open spec fn or_else(a: Option<u32>, b: Option<u32>) -> Option<u32> {
    if a is Some {
        a
    } else {
        b
    }
}

pub open spec fn dex_line(line: Seq<char>) -> bool {
    let l = lower(line);
    contains(l, "dex"@) || contains(l, "desktop"@) || contains(l, "display"@)
}

pub open spec fn dex_line_id(line: Seq<char>) -> Option<u32> {
    if dex_line(line) {
        or_else(
            number_after(line, "displayId="@),
            or_else(
                number_after(line, "mDisplayId="@),
                or_else(number_after(line, "display_id="@), number_after(line, "displayId:"@)),
            ),
        )
    } else {
        None
    }
}

pub open spec fn dex_line_fn() -> spec_fn(Seq<char>) -> Option<u32> {
    |l: Seq<char>| dex_line_id(l)
}

/// The display id on the first DeX/desktop/display line that names one.
pub open spec fn dex_display_spec(text: Seq<char>) -> Option<u32> {
    first_some(lines(text), dex_line_fn())
}

fn dex_line_id_exec(line: &[char]) -> (r: Option<u32>)
    ensures
        r == dex_line_id(line@),
{
    let l = to_lower(line);
    if !(contains_str(&l, "dex") || contains_str(&l, "desktop") || contains_str(&l, "display")) {
        return None;
    }
    let a = parse_number_after_of(line, "displayId=");
    if a.is_some() {
        return a;
    }
    let b = parse_number_after_of(line, "mDisplayId=");
    if b.is_some() {
        return b;
    }
    let c = parse_number_after_of(line, "display_id=");
    if c.is_some() {
        return c;
    }
    parse_number_after_of(line, "displayId:")
}

pub fn parse_samsung_dex_display_id(text: &str) -> (r: Option<u32>)
    ensures
        r == dex_display_spec(text@),
{
    let ls = lines_of(&chars_of(text));
    let ghost lv = views(ls@);
    let mut i: usize = 0;
    while i < ls.len()
        invariant
            i <= ls@.len(),
            lv == views(ls@),
            lv == lines(text@),
            forall|j: int| 0 <= j < i ==> (dex_line_fn())(#[trigger] lv[j]) is None,
        decreases ls@.len() - i,
    {
        let r = dex_line_id_exec(&ls[i]);
        assert(lv[i as int] == ls@[i as int]@);
        if r.is_some() {
            proof {
                lemma_first_some_at(lv, dex_line_fn(), i as int);
            }
            return r;
        }
        i += 1;
    }
    proof {
        lemma_first_some_none(lv, dex_line_fn());
    }
    None
}

// ---------------------------------------------------------------------------
// Display ids in activity and display dumps
// ---------------------------------------------------------------------------

pub open spec fn block_id(line: Seq<char>) -> Option<u32> {
    or_else(
        number_after(line, "Display #"@),
        or_else(
            number_after(line, "displayId="@),
            or_else(number_after(line, "mDisplayId="@), number_after(line, "displayId: "@)),
        ),
    )
}

pub open spec fn inline_id(line: Seq<char>) -> Option<u32> {
    or_else(
        number_after(line, "displayId="@),
        or_else(number_after(line, "mDisplayId="@), number_after(line, "displayId: "@)),
    )
}

pub open spec fn names_any(line: Seq<char>, comps: Seq<Seq<char>>) -> bool {
    exists|i: int| 0 <= i < comps.len() && contains(line, #[trigger] comps[i])
}

pub open spec fn positive(v: Option<u32>) -> Option<u32> {
    match v {
        Some(id) => if id > 0 {
            Some(id)
        } else {
            None
        },
        None => None,
    }
}

/// Scans lines for the first one naming a component; its display is the id on that line,
/// else the id of the display block it is in, when positive.
pub open spec fn component_scan(ls: Seq<Seq<char>>, cur: Option<u32>, comps: Seq<Seq<char>>) -> Option<
    u32,
>
    decreases ls.len(),
{
    if ls.len() == 0 {
        None
    } else {
        let cur2 = or_else(block_id(ls[0]), cur);
        if names_any(ls[0], comps) {
            positive(or_else(inline_id(ls[0]), cur2))
        } else {
            component_scan(ls.drop_first(), cur2, comps)
        }
    }
}

pub open spec fn str_views(v: Seq<&str>) -> Seq<Seq<char>> {
    v.map_values(|s: &str| s@)
}

fn first_number_of(line: &[char], m1: &str, m2: &str, m3: &str) -> (r: Option<u32>)
    ensures
        r == or_else(
            number_after(line@, m1@),
            or_else(number_after(line@, m2@), number_after(line@, m3@)),
        ),
{
    let a = parse_number_after_of(line, m1);
    if a.is_some() {
        return a;
    }
    let b = parse_number_after_of(line, m2);
    if b.is_some() {
        return b;
    }
    parse_number_after_of(line, m3)
}

fn block_id_exec(line: &[char]) -> (r: Option<u32>)
    ensures
        r == block_id(line@),
{
    let a = parse_number_after_of(line, "Display #");
    if a.is_some() {
        return a;
    }
    first_number_of(line, "displayId=", "mDisplayId=", "displayId: ")
}

fn names_any_exec(line: &[char], comps: &[&str]) -> (r: bool)
    ensures
        r == names_any(line@, str_views(comps@)),
{
    let mut i: usize = 0;
    while i < comps.len()
        invariant
            i <= comps@.len(),
            forall|j: int| 0 <= j < i ==> !contains(line@, #[trigger] str_views(comps@)[j]),
        decreases comps@.len() - i,
    {
        if contains_str(line, comps[i]) {
            assert(str_views(comps@)[i as int] == comps@[i as int]@);
            return true;
        }
        i += 1;
    }
    false
}

/// The display that shows one of the components, from `dumpsys activity activities`.
pub open spec fn component_display_spec(text: Seq<char>, comps: Seq<Seq<char>>) -> Option<u32> {
    component_scan(lines(text), None, comps)
}

pub fn component_display_id(text: &str, components: &[&str]) -> (r: Option<u32>)
    ensures
        r == component_display_spec(text@, str_views(components@)),
{
    let ls = lines_of(&chars_of(text));
    let ghost lv = views(ls@);
    let ghost comps = str_views(components@);
    let mut current: Option<u32> = None;
    let mut i: usize = 0;
    assert(lv.skip(0) =~= lv);
    while i < ls.len()
        invariant
            i <= ls@.len(),
            lv == views(ls@),
            lv == lines(text@),
            comps == str_views(components@),
            component_scan(lv, None, comps) == component_scan(lv.skip(i as int), current, comps),
        decreases ls@.len() - i,
    {
        assert(lv.skip(i as int)[0] == ls@[i as int]@);
        assert(lv.skip(i as int).drop_first() =~= lv.skip(i + 1 as int));
        let b = block_id_exec(&ls[i]);
        if b.is_some() {
            current = b;
        }
        if names_any_exec(&ls[i], components) {
            let inline = first_number_of(&ls[i], "displayId=", "mDisplayId=", "displayId: ");
            let v = if inline.is_some() {
                inline
            } else {
                current
            };
            return match v {
                Some(id) => if id > 0 {
                    Some(id)
                } else {
                    None
                },
                None => None,
            };
        }
        i += 1;
    }
    None
}

pub open spec fn desktop_block_id(line: Seq<char>) -> Option<u32> {
    or_else(
        number_after(line, "Display #"@),
        or_else(
            number_after(line, "mDisplayId="@),
            or_else(number_after(line, "displayId="@), number_after(line, "displayId: "@)),
        ),
    )
}

pub open spec fn desktop_line(line: Seq<char>) -> bool {
    contains(lower(line), "dex"@) || contains(
        lower(line),
        "com.samsung.android.hardware.display.category.desktop"@,
    )
}

/// The first positive display block that mentions DeX or the Samsung desktop category.
pub open spec fn named_scan(ls: Seq<Seq<char>>, cur: Option<u32>) -> Option<u32>
    decreases ls.len(),
{
    if ls.len() == 0 {
        None
    } else {
        let cur2 = or_else(desktop_block_id(ls[0]), cur);
        if desktop_line(ls[0]) && (cur2 matches Some(id) && id > 0) {
            cur2
        } else {
            named_scan(ls.drop_first(), cur2)
        }
    }
}

pub fn named_desktop_display_id(text: &str) -> (r: Option<u32>)
    ensures
        r == named_scan(lines(text@), None),
{
    let ls = lines_of(&chars_of(text));
    let ghost lv = views(ls@);
    let mut current: Option<u32> = None;
    let mut i: usize = 0;
    assert(lv.skip(0) =~= lv);
    while i < ls.len()
        invariant
            i <= ls@.len(),
            lv == views(ls@),
            lv == lines(text@),
            named_scan(lv, None) == named_scan(lv.skip(i as int), current),
        decreases ls@.len() - i,
    {
        assert(lv.skip(i as int)[0] == ls@[i as int]@);
        assert(lv.skip(i as int).drop_first() =~= lv.skip(i + 1 as int));
        let a = parse_number_after_of(&ls[i], "Display #");
        let b = if a.is_some() {
            a
        } else {
            first_number_of(&ls[i], "mDisplayId=", "displayId=", "displayId: ")
        };
        if b.is_some() {
            current = b;
        }
        let l = to_lower(&ls[i]);
        let named = contains_str(&l, "dex") || contains_str(
            &l,
            "com.samsung.android.hardware.display.category.desktop",
        );
        let positive = match current {
            Some(id) => id > 0,
            None => false,
        };
        if named && positive {
            return current;
        }
        i += 1;
    }
    None
}

// ---------------------------------------------------------------------------
// The section of a dump that describes one display
// ---------------------------------------------------------------------------

pub open spec fn section_marks(line: Seq<char>, id: u32) -> bool {
    contains(line, "Display #"@ + dec(id as nat)) || contains(line, "mDisplayId="@ + dec(id as nat))
        || contains(line, "displayId="@ + dec(id as nat)) || contains(
        line,
        "displayId: "@ + dec(id as nat),
    )
}

/// Index of the first line that names the display.
pub open spec fn section_start(ls: Seq<Seq<char>>, id: u32) -> Option<int>
    decreases ls.len(),
{
    if ls.len() == 0 {
        None
    } else {
        match section_start(ls.drop_last(), id) {
            Some(k) => Some(k),
            None => if section_marks(ls.last(), id) {
                Some(ls.len() - 1)
            } else {
                None
            },
        }
    }
}

proof fn lemma_section_start(ls: Seq<Seq<char>>, id: u32)
    ensures
        section_start(ls, id) matches Some(k) ==> 0 <= k < ls.len() && section_marks(ls[k], id)
            && forall|j: int| 0 <= j < k ==> !section_marks(#[trigger] ls[j], id),
        section_start(ls, id) is None ==> forall|j: int|
            0 <= j < ls.len() ==> !section_marks(#[trigger] ls[j], id),
    decreases ls.len(),
{
    if ls.len() > 0 {
        let t = ls.drop_last();
        lemma_section_start(t, id);
        assert(forall|j: int| 0 <= j < t.len() ==> t[j] == ls[j]);
    }
}

/// Three lines before the first line naming the display, to a hundred lines after it.
pub open spec fn display_section_spec(text: Seq<char>, id: u32) -> Seq<char> {
    let ls = lines(text);
    match section_start(ls, id) {
        None => Seq::<char>::empty(),
        Some(k) => {
            let start = if k >= 3 {
                k - 3
            } else {
                0
            };
            let end = if k + 100 <= ls.len() {
                k + 100
            } else {
                ls.len() as int
            };
            join(ls.subrange(start, end), "\n"@)
        },
    }
}

fn section_marks_exec(line: &[char], id: u32) -> (r: bool)
    ensures
        r == section_marks(line@, id),
{
    let n = u32_text(id);
    let a = crate::text::lit_plus("Display #", &n);
    let b = crate::text::lit_plus("mDisplayId=", &n);
    let c = crate::text::lit_plus("displayId=", &n);
    let d = crate::text::lit_plus("displayId: ", &n);
    contains_str(line, a.as_str()) || contains_str(line, b.as_str()) || contains_str(
        line,
        c.as_str(),
    ) || contains_str(line, d.as_str())
}

fn display_section_chars(text: &[char], display_id: u32) -> (r: Vec<char>)
    ensures
        r@ == display_section_spec(text@, display_id),
{
    let ls = lines_of(text);
    let ghost lv = views(ls@);
    let mut i: usize = 0;
    while i < ls.len()
        invariant
            i <= ls@.len(),
            lv == views(ls@),
            lv == lines(text@),
            forall|j: int| 0 <= j < i ==> !section_marks(#[trigger] lv[j], display_id),
        decreases ls@.len() - i,
    {
        assert(lv[i as int] == ls@[i as int]@);
        if section_marks_exec(&ls[i], display_id) {
            proof {
                lemma_section_start(lv, display_id);
                match section_start(lv, display_id) {
                    Some(k) => {
                        if k > i {
                            assert(!section_marks(lv[i as int], display_id));
                        }
                    },
                    None => {},
                }
            }
            let start = if i >= 3 {
                i - 3
            } else {
                0
            };
            let end = if ls.len() >= 100 && i <= ls.len() - 100 {
                i + 100
            } else {
                ls.len()
            };
            assert(end as int == if i + 100 <= ls@.len() {
                i + 100
            } else {
                ls@.len() as int
            });
            let part = crate::text::copy_range_vecs(&ls, start, end);
            assert(views(part@) =~= lv.subrange(start as int, end as int));
            return join_exec(&part, "\n");
        }
        i += 1;
    }
    proof {
        lemma_section_start(lv, display_id);
        if section_start(lv, display_id) is Some {
            let k = section_start(lv, display_id)->0;
            assert(section_marks(lv[k], display_id));
        }
    }
    Vec::new()
}

/// The lines of a dump around the first mention of one display.
pub fn display_section(text: &str, display_id: u32) -> (r: String)
    ensures
        r@ == display_section_spec(text@, display_id),
{
    string_of(&display_section_chars(&chars_of(text), display_id))
}

/// The text with every leading `prefix` removed (`str::trim_start_matches`).
pub open spec fn strip_prefixes(s: Seq<char>, p: Seq<char>) -> Seq<char>
    decreases s.len(),
{
    if p.len() > 0 && starts_with(s, p) {
        strip_prefixes(s.skip(p.len() as int), p)
    } else {
        s
    }
}

/// A `package/Activity` word of a dump line, without surrounding brackets and `cmp=`.
pub open spec fn component_token(t: Seq<char>) -> Option<Seq<char>> {
    let c = trim_by(t, trim_fn(TrimSet::Brackets));
    if crate::text::index_of(c, '/') is Some && !starts_with(c, "http"@) {
        Some(strip_prefixes(c, "cmp="@))
    } else {
        None
    }
}

pub open spec fn component_token_fn() -> spec_fn(Seq<char>) -> Option<Seq<char>> {
    |t: Seq<char>| component_token(t)
}

pub open spec fn component_spec(line: Seq<char>) -> Option<Seq<char>> {
    first_some(split_ws(line), component_token_fn())
}

fn strip_component_prefix(s: &[char]) -> (r: Vec<char>)
    ensures
        r@ == strip_prefixes(s@, "cmp="@),
{
    let p = chars_of("cmp=");
    let mut i: usize = 0;
    assert(s@.skip(0) =~= s@);
    while i < s.len() && starts_with_str(&copy_range(s, i, s.len()), "cmp=")
        invariant
            i <= s@.len(),
            p@ == "cmp="@,
            strip_prefixes(s@, "cmp="@) == strip_prefixes(s@.skip(i as int), "cmp="@),
        decreases s@.len() - i,
    {
        assert(s@.subrange(i as int, s@.len() as int) =~= s@.skip(i as int));
        assert("cmp="@.len() == 4) by {
            reveal_strlit("cmp=");
        }
        if i + 4 > s.len() {
            return Vec::new();
        }
        assert(s@.skip(i as int).skip(4) =~= s@.skip(i + 4));
        i += 4;
    }
    proof {
        if i < s@.len() {
            assert(s@.subrange(i as int, s@.len() as int) =~= s@.skip(i as int));
        } else {
            assert(s@.skip(i as int) =~= Seq::<char>::empty());
            assert(!starts_with(Seq::<char>::empty(), "cmp="@)) by {
                reveal_strlit("cmp=");
            }
        }
    }
    copy_range(s, i, s.len())
}

fn component_token_exec(t: &[char]) -> (r: Option<Vec<char>>)
    ensures
        r matches Some(v) ==> component_token(t@) == Some(v@),
        r is None ==> component_token(t@) is None,
{
    let c = trimmed_by(t, TrimSet::Brackets);
    if crate::text::index_of_char(&c, '/').is_some() && !starts_with_str(&c, "http") {
        Some(strip_component_prefix(&c))
    } else {
        None
    }
}

fn component_from_chars(line: &[char]) -> (r: Option<Vec<char>>)
    ensures
        r matches Some(v) ==> component_spec(line@) == Some(v@),
        r is None ==> component_spec(line@) is None,
{
    let toks = split_whitespace(line);
    let ghost tv = views(toks@);
    let mut i: usize = 0;
    while i < toks.len()
        invariant
            i <= toks@.len(),
            tv == views(toks@),
            tv == split_ws(line@),
            forall|j: int| 0 <= j < i ==> (component_token_fn())(#[trigger] tv[j]) is None,
        decreases toks@.len() - i,
    {
        assert(tv[i as int] == toks@[i as int]@);
        match component_token_exec(&toks[i]) {
            Some(v) => {
                proof {
                    lemma_first_some_at(tv, component_token_fn(), i as int);
                }
                return Some(v);
            },
            None => {},
        }
        i += 1;
    }
    proof {
        lemma_first_some_none(tv, component_token_fn());
    }
    None
}

/// The first `package/Activity` component named on a dump line.
pub fn component_from_line(line: &str) -> (r: Option<String>)
    ensures
        crate::text::opt_view(r) == component_spec(line@),
{
    match component_from_chars(&chars_of(line)) {
        Some(v) => Some(string_of(&v)),
        None => None,
    }
}

/// The component on the first line of `ls` that contains `marker`.
pub open spec fn marked_component(ls: Seq<Seq<char>>, marker: Seq<char>) -> Option<Seq<char>>
    decreases ls.len(),
{
    if ls.len() == 0 {
        None
    } else if contains(ls[0], marker) {
        component_spec(ls[0])
    } else {
        marked_component(ls.drop_first(), marker)
    }
}

/// The resumed or focused activity of one display.
pub open spec fn running_activity_spec(text: Seq<char>, id: u32) -> Option<Seq<char>> {
    let ls = lines(display_section_spec(text, id));
    let a = marked_component(ls, "topResumedActivity"@);
    let b = marked_component(ls, "mResumedActivity"@);
    let c = marked_component(ls, "mCurrentFocus"@);
    let d = marked_component(ls, "realActivity="@);
    let e = marked_component(ls, "ActivityRecord"@);
    if a is Some {
        a
    } else if b is Some {
        b
    } else if c is Some {
        c
    } else if d is Some {
        d
    } else {
        e
    }
}

fn marked_component_exec(ls: &Vec<Vec<char>>, marker: &str) -> (r: Option<Vec<char>>)
    ensures
        r matches Some(v) ==> marked_component(views(ls@), marker@) == Some(v@),
        r is None ==> marked_component(views(ls@), marker@) is None,
{
    let ghost lv = views(ls@);
    let mut i: usize = 0;
    assert(lv.skip(0) =~= lv);
    while i < ls.len()
        invariant
            i <= ls@.len(),
            lv == views(ls@),
            marked_component(lv, marker@) == marked_component(lv.skip(i as int), marker@),
        decreases ls@.len() - i,
    {
        assert(lv.skip(i as int)[0] == ls@[i as int]@);
        assert(lv.skip(i as int).drop_first() =~= lv.skip(i + 1 as int));
        if contains_str(&ls[i], marker) {
            return component_from_chars(&ls[i]);
        }
        i += 1;
    }
    None
}

pub fn running_activity(text: &str, display_id: u32) -> (r: Option<String>)
    ensures
        crate::text::opt_view(r) == running_activity_spec(text@, display_id),
{
    let section = display_section_chars(&chars_of(text), display_id);
    let ls = lines_of(&section);
    let a = marked_component_exec(&ls, "topResumedActivity");
    if let Some(v) = a {
        return Some(string_of(&v));
    }
    let b = marked_component_exec(&ls, "mResumedActivity");
    if let Some(v) = b {
        return Some(string_of(&v));
    }
    let c = marked_component_exec(&ls, "mCurrentFocus");
    if let Some(v) = c {
        return Some(string_of(&v));
    }
    let d = marked_component_exec(&ls, "realActivity=");
    if let Some(v) = d {
        return Some(string_of(&v));
    }
    match marked_component_exec(&ls, "ActivityRecord") {
        Some(v) => Some(string_of(&v)),
        None => None,
    }
}

/// The windowing mode that a display's section reports.
pub open spec fn windowing_mode_spec(text: Seq<char>, id: u32) -> Seq<char> {
    let l = lower(display_section_spec(text, id));
    if contains(l, "windowingmode=freeform"@) || contains(l, "windowing_mode_freeform"@) || contains(
        l,
        "windowingmode=5"@,
    ) || contains(l, "windowingmode = 5"@) {
        "freeform"@
    } else if contains(l, "desktopmode=true"@) || contains(l, "windowingmode=desktop"@) {
        "desktop"@
    } else if contains(l, "windowingmode=fullscreen"@) || contains(l, "windowing_mode_fullscreen"@)
        || contains(l, "windowingmode=1"@) {
        "fullscreen"@
    } else {
        "unknown"@
    }
}

pub fn observed_windowing_mode(text: &str, display_id: u32) -> (r: String)
    ensures
        r@ == windowing_mode_spec(text@, display_id),
{
    let l = to_lower(&display_section_chars(&chars_of(text), display_id));
    if contains_str(&l, "windowingmode=freeform") || contains_str(&l, "windowing_mode_freeform")
        || contains_str(&l, "windowingmode=5") || contains_str(&l, "windowingmode = 5") {
        String::from_str("freeform")
    } else if contains_str(&l, "desktopmode=true") || contains_str(&l, "windowingmode=desktop") {
        String::from_str("desktop")
    } else if contains_str(&l, "windowingmode=fullscreen") || contains_str(
        &l,
        "windowing_mode_fullscreen",
    ) || contains_str(&l, "windowingmode=1") {
        String::from_str("fullscreen")
    } else {
        String::from_str("unknown")
    }
}

/// The quoted name after `DisplayDeviceInfo{"` on a line.
pub open spec fn quoted_display_name(line: Seq<char>) -> Option<Seq<char>> {
    match find(line, "DisplayDeviceInfo{\""@) {
        None => None,
        Some(k) => {
            let rest = line.skip(k + "DisplayDeviceInfo{\""@.len());
            match crate::text::index_of(rest, '"') {
                Some(e) => Some(rest.take(e)),
                None => None,
            }
        },
    }
}

pub open spec fn quoted_name_fn() -> spec_fn(Seq<char>) -> Option<Seq<char>> {
    |l: Seq<char>| quoted_display_name(l)
}

pub open spec fn display_name_spec(text: Seq<char>, id: u32) -> Option<Seq<char>> {
    first_some(lines(display_section_spec(text, id)), quoted_name_fn())
}

fn quoted_display_name_exec(line: &[char]) -> (r: Option<Vec<char>>)
    ensures
        r matches Some(v) ==> quoted_display_name(line@) == Some(v@),
        r is None ==> quoted_display_name(line@) is None,
{
    let m = chars_of("DisplayDeviceInfo{\"");
    match find_str(line, "DisplayDeviceInfo{\"") {
        None => None,
        Some(k) => {
            proof {
                lemma_find_facts(line@, m@);
            }
            assert(k + m.len() <= line.len());
            let rest = copy_range(line, k + m.len(), line.len());
            assert(rest@ =~= line@.skip(k + m@.len()));
            match crate::text::index_of_char(&rest, '"') {
                Some(e) => {
                    proof {
                        crate::text::lemma_index_of(rest@, '"');
                    }
                    let v = copy_range(&rest, 0, e);
                    assert(v@ =~= rest@.take(e as int));
                    Some(v)
                },
                None => None,
            }
        },
    }
}

pub fn display_name(text: &str, display_id: u32) -> (r: Option<String>)
    ensures
        crate::text::opt_view(r) == display_name_spec(text@, display_id),
{
    let section = display_section_chars(&chars_of(text), display_id);
    let ls = lines_of(&section);
    let ghost lv = views(ls@);
    let mut i: usize = 0;
    while i < ls.len()
        invariant
            i <= ls@.len(),
            lv == views(ls@),
            lv == lines(display_section_spec(text@, display_id)),
            forall|j: int| 0 <= j < i ==> (quoted_name_fn())(#[trigger] lv[j]) is None,
        decreases ls@.len() - i,
    {
        assert(lv[i as int] == ls@[i as int]@);
        match quoted_display_name_exec(&ls[i]) {
            Some(v) => {
                proof {
                    lemma_first_some_at(lv, quoted_name_fn(), i as int);
                }
                return Some(string_of(&v));
            },
            None => {},
        }
        i += 1;
    }
    proof {
        lemma_first_some_none(lv, quoted_name_fn());
    }
    None
}

// ---------------------------------------------------------------------------
// scrcpy output
// ---------------------------------------------------------------------------

pub open spec fn new_display_marker() -> Seq<char> {
    "New display:"@
}

/// `New display: WxH/DPI (id=N)` from scrcpy's log: width, height, density and display id.
pub open spec fn new_display_spec(text: Seq<char>) -> Option<(u32, u32, u32, u32)> {
    match find(text, new_display_marker()) {
        None => None,
        Some(k) => {
            let after = trim(text.skip(k + new_display_marker().len()));
            let words = split_ws(after);
            if words.len() == 0 {
                None
            } else {
                match split_once(words[0], '/') {
                    None => None,
                    Some((size, dpi)) => match split_once(size, 'x') {
                        None => None,
                        Some((w, h)) => match (
                            parse_u32(w),
                            parse_u32(h),
                            parse_u32(dpi),
                            number_after(after, "id="@),
                        ) {
                            (Some(a), Some(b), Some(c), Some(d)) => Some((a, b, c, d)),
                            _ => None,
                        },
                    },
                }
            }
        },
    }
}

pub fn parse_new_display(text: &str) -> (r: Option<(u32, u32, u32, u32)>)
    ensures
        r == new_display_spec(text@),
{
    let t = chars_of(text);
    let m = chars_of("New display:");
    match find_str(&t, "New display:") {
        None => None,
        Some(k) => {
            proof {
                lemma_find_facts(t@, m@);
            }
            assert(k + m.len() <= t.len());
            let rest = copy_range(&t, k + m.len(), t.len());
            assert(rest@ =~= t@.skip(k + m@.len()));
            let after = trimmed(&rest);
            let words = split_whitespace(&after);
            if words.len() == 0 {
                return None;
            }
            assert(views(words@)[0] == words@[0]@);
            match split_once_char(&words[0], '/') {
                None => None,
                Some((size, dpi)) => match split_once_char(&size, 'x') {
                    None => None,
                    Some((w, h)) => {
                        let a = parse_u32_chars(&w);
                        let b = parse_u32_chars(&h);
                        let c = parse_u32_chars(&dpi);
                        let d = parse_number_after_of(&after, "id=");
                        match (a, b, c, d) {
                            (Some(a), Some(b), Some(c), Some(d)) => Some((a, b, c, d)),
                            _ => None,
                        }
                    },
                },
            }
        },
    }
}

/// A `WIDTHxHEIGHT` word once trimmed to digits and `x`.
pub open spec fn resolution_token(t: Seq<char>) -> Option<Seq<char>> {
    match split_once(trim_by(t, trim_fn(TrimSet::NotDigitOrX)), 'x') {
        Some((w, h)) => if parse_u32(w) is Some && parse_u32(h) is Some {
            Some(w + "x"@ + h)
        } else {
            None
        },
        None => None,
    }
}

pub open spec fn resolution_fn() -> spec_fn(Seq<char>) -> Option<Seq<char>> {
    |t: Seq<char>| resolution_token(t)
}

/// The first resolution in `wm size` output.
pub open spec fn resolution_spec(text: Seq<char>) -> Option<Seq<char>> {
    first_some(split_by(text, sep_fn(Sep::SpaceOrPunct)), resolution_fn())
}

fn resolution_token_exec(t: &[char]) -> (r: Option<Vec<char>>)
    ensures
        r matches Some(v) ==> resolution_token(t@) == Some(v@),
        r is None ==> resolution_token(t@) is None,
{
    let c = trimmed_by(t, TrimSet::NotDigitOrX);
    match split_once_char(&c, 'x') {
        Some((w, h)) => {
            if parse_u32_chars(&w).is_some() && parse_u32_chars(&h).is_some() {
                let mut v = w;
                v.push('x');
                let ghost v1 = v@;
                let mut i: usize = 0;
                while i < h.len()
                    invariant
                        i <= h@.len(),
                        v@ == v1 + h@.take(i as int),
                    decreases h@.len() - i,
                {
                    v.push(h[i]);
                    i += 1;
                    assert(v@ =~= v1 + h@.take(i as int));
                }
                assert(h@.take(h@.len() as int) =~= h@);
                assert(v1 =~= w@ + "x"@) by {
                    reveal_strlit("x");
                }
                Some(v)
            } else {
                None
            }
        },
        None => None,
    }
}

pub fn parse_resolution(text: &str) -> (r: Option<String>)
    ensures
        crate::text::opt_view(r) == resolution_spec(text@),
{
    let parts = split(&chars_of(text), Sep::SpaceOrPunct);
    let ghost pv = views(parts@);
    let mut i: usize = 0;
    while i < parts.len()
        invariant
            i <= parts@.len(),
            pv == views(parts@),
            pv == split_by(text@, sep_fn(Sep::SpaceOrPunct)),
            forall|j: int| 0 <= j < i ==> (resolution_fn())(#[trigger] pv[j]) is None,
        decreases parts@.len() - i,
    {
        assert(pv[i as int] == parts@[i as int]@);
        match resolution_token_exec(&parts[i]) {
            Some(v) => {
                proof {
                    lemma_first_some_at(pv, resolution_fn(), i as int);
                }
                return Some(string_of(&v));
            },
            None => {},
        }
        i += 1;
    }
    proof {
        lemma_first_some_none(pv, resolution_fn());
    }
    None
}

pub open spec fn number_fn() -> spec_fn(Seq<char>) -> Option<u32> {
    |t: Seq<char>| parse_u32(t)
}

/// The first number in `wm density` output (the runs of digits, read in order).
pub open spec fn density_spec(text: Seq<char>) -> Option<u32> {
    first_some(split_by(text, sep_fn(Sep::NonDigit)), number_fn())
}

pub fn parse_density(text: &str) -> (r: Option<u32>)
    ensures
        r == density_spec(text@),
{
    let parts = split(&chars_of(text), Sep::NonDigit);
    let ghost pv = views(parts@);
    let mut i: usize = 0;
    while i < parts.len()
        invariant
            i <= parts@.len(),
            pv == views(parts@),
            pv == split_by(text@, sep_fn(Sep::NonDigit)),
            forall|j: int| 0 <= j < i ==> (number_fn())(#[trigger] pv[j]) is None,
        decreases parts@.len() - i,
    {
        assert(pv[i as int] == parts@[i as int]@);
        let v = parse_u32_chars(&parts[i]);
        if v.is_some() {
            proof {
                lemma_first_some_at(pv, number_fn(), i as int);
            }
            return v;
        }
        i += 1;
    }
    proof {
        lemma_first_some_none(pv, number_fn());
    }
    None
}

// ---------------------------------------------------------------------------
// Command previews and probe arguments
// ---------------------------------------------------------------------------

/// The text with every `"` written as `\"`.
pub open spec fn escape_quotes(s: Seq<char>) -> Seq<char>
    decreases s.len(),
{
    if s.len() == 0 {
        s
    } else if s.last() == '"' {
        escape_quotes(s.drop_last()) + seq!['\\', '"']
    } else {
        escape_quotes(s.drop_last()).push(s.last())
    }
}

pub fn escape_quotes_exec(s: &[char]) -> (r: Vec<char>)
    ensures
        r@ == escape_quotes(s@),
{
    let mut r: Vec<char> = Vec::new();
    let mut i: usize = 0;
    while i < s.len()
        invariant
            i <= s@.len(),
            r@ == escape_quotes(s@.take(i as int)),
        decreases s@.len() - i,
    {
        assert(s@.take(i + 1 as int).drop_last() =~= s@.take(i as int));
        let ghost r0 = r@;
        if s[i] == '"' {
            r.push('\\');
            r.push('"');
            assert(r@ =~= r0 + seq!['\\', '"']);
        } else {
            r.push(s[i]);
        }
        i += 1;
    }
    assert(s@.take(s@.len() as int) =~= s@);
    r
}

pub open spec fn has_ws(s: Seq<char>) -> bool {
    exists|i: int| 0 <= i < s.len() && crate::text::is_ws(#[trigger] s[i])
}

/// A command-line word as a preview shows it: quoted, with `"` escaped, when it holds white
/// space.
pub open spec fn quote_spec(v: Seq<char>) -> Seq<char> {
    if has_ws(v) {
        seq!['"'] + escape_quotes(v) + seq!['"']
    } else {
        v
    }
}

fn has_ws_exec(s: &[char]) -> (b: bool)
    ensures
        b == has_ws(s@),
{
    let mut i: usize = 0;
    while i < s.len()
        invariant
            i <= s@.len(),
            forall|j: int| 0 <= j < i ==> !crate::text::is_ws(#[trigger] s@[j]),
        decreases s@.len() - i,
    {
        if crate::text::is_whitespace(s[i]) {
            return true;
        }
        i += 1;
    }
    false
}

fn quote_chars(v: &[char]) -> (r: Vec<char>)
    ensures
        r@ == quote_spec(v@),
{
    if has_ws_exec(v) {
        let e = escape_quotes_exec(v);
        let mut r: Vec<char> = Vec::new();
        r.push('"');
        let mut i: usize = 0;
        while i < e.len()
            invariant
                i <= e@.len(),
                r@ == seq!['"'] + e@.take(i as int),
            decreases e@.len() - i,
        {
            r.push(e[i]);
            i += 1;
            assert(r@ =~= seq!['"'] + e@.take(i as int));
        }
        r.push('"');
        assert(e@.take(e@.len() as int) =~= e@);
        assert(r@ =~= seq!['"'] + e@ + seq!['"']);
        r
    } else {
        copy_range(v, 0, v.len())
    }
}

pub fn quote_preview(value: &str) -> (r: String)
    ensures
        r@ == quote_spec(value@),
{
    string_of(&quote_chars(&chars_of(value)))
}

pub open spec fn quote_all(v: Seq<Seq<char>>) -> Seq<Seq<char>> {
    v.map_values(|a: Seq<char>| quote_spec(a))
}

/// The program and its arguments, each quoted when needed, joined by spaces.
pub open spec fn command_preview_spec(path: Seq<char>, args: Seq<Seq<char>>) -> Seq<char> {
    join(quote_all(seq![path] + args), " "@)
}

/// `path` is the program as `Path::display` shows it.
pub fn command_preview(path: &str, args: &Vec<String>) -> (r: String)
    ensures
        r@ == command_preview_spec(path@, strs(args@)),
{
    let ghost all = seq![path@] + strs(args@);
    let mut values: Vec<Vec<char>> = Vec::new();
    values.push(quote_chars(&chars_of(path)));
    let mut i: usize = 0;
    while i < args.len()
        invariant
            i <= args@.len(),
            all == seq![path@] + strs(args@),
            views(values@) =~= quote_all(all).take(i + 1 as int),
        decreases args@.len() - i,
    {
        let q = quote_chars(&chars_of(args[i].as_str()));
        let ghost b = views(values@);
        values.push(q);
        assert(all[i + 1] == args@[i as int]@);
        assert(views(values@) =~= b.push(q@));
        i += 1;
    }
    assert(quote_all(all).take(args@.len() + 1 as int) =~= quote_all(all));
    string_of(&join_exec(&values, " "))
}

pub open spec fn display_id_arg(a: Seq<char>) -> Option<u32> {
    if starts_with(a, "--display-id="@) {
        parse_u32(a.skip("--display-id="@.len() as int))
    } else {
        None
    }
}

pub open spec fn display_id_arg_fn() -> spec_fn(Seq<char>) -> Option<u32> {
    |a: Seq<char>| display_id_arg(a)
}

/// The display named by the first `--display-id=N` argument.
pub fn display_id_from_args(args: &Vec<String>) -> (r: Option<u32>)
    ensures
        r == first_some(strs(args@), display_id_arg_fn()),
{
    let ghost av = strs(args@);
    let m = chars_of("--display-id=");
    let mut i: usize = 0;
    while i < args.len()
        invariant
            i <= args@.len(),
            av == strs(args@),
            m@ == "--display-id="@,
            forall|j: int| 0 <= j < i ==> (display_id_arg_fn())(#[trigger] av[j]) is None,
        decreases args@.len() - i,
    {
        let a = chars_of(args[i].as_str());
        assert(av[i as int] == a@);
        let v = if starts_with_str(&a, "--display-id=") {
            let rest = copy_range(&a, m.len(), a.len());
            assert(rest@ =~= a@.skip(m@.len() as int));
            parse_u32_chars(&rest)
        } else {
            None
        };
        if v.is_some() {
            proof {
                lemma_first_some_at(av, display_id_arg_fn(), i as int);
            }
            return v;
        }
        i += 1;
    }
    proof {
        lemma_first_some_none(av, display_id_arg_fn());
    }
    None
}

/// The arguments of the short, windowless scrcpy run that tests virtual-display support.
pub open spec fn probe_args_spec(serial: Seq<char>) -> Seq<Seq<char>> {
    seq![
        "-s"@,
        serial,
        "--new-display=1024x640/160"@,
        "--start-app=com.android.settings"@,
        "--no-audio"@,
        "--no-playback"@,
        "--no-window"@,
        "--time-limit=5"@,
    ]
}

pub fn virtual_display_probe_args(serial: &str) -> (r: Vec<String>)
    ensures
        strs(r@) == probe_args_spec(serial@),
{
    let mut r: Vec<String> = Vec::new();
    push_str(&mut r, String::from_str("-s"));
    push_str(&mut r, String::from_str(serial));
    push_str(&mut r, String::from_str("--new-display=1024x640/160"));
    push_str(&mut r, String::from_str("--start-app=com.android.settings"));
    push_str(&mut r, String::from_str("--no-audio"));
    push_str(&mut r, String::from_str("--no-playback"));
    push_str(&mut r, String::from_str("--no-window"));
    push_str(&mut r, String::from_str("--time-limit=5"));
    assert(strs(r@) =~= probe_args_spec(serial@));
    r
}

// ---------------------------------------------------------------------------
// Desktop developer settings
// ---------------------------------------------------------------------------

pub const FORCE_DESKTOP: &'static str = "force_desktop_mode_on_external_displays";

pub const ENABLE_FREEFORM: &'static str = "enable_freeform_support";

pub const FORCE_RESIZABLE: &'static str = "force_resizable_activities";

pub const ENABLE_NON_RESIZABLE_MULTI_WINDOW: &'static str = "enable_non_resizable_multi_window";

pub const OVERRIDE_DESKTOP_EXPERIENCE: &'static str = "override_desktop_experience_features";

pub const OVERRIDE_DESKTOP_MODE: &'static str = "override_desktop_mode_features";

/// The settings that preparing Android desktop windowing writes (one more from API 36).
pub open spec fn desktop_keys_spec(sdk: u32) -> Seq<Seq<char>> {
    seq![
        FORCE_DESKTOP@,
        ENABLE_FREEFORM@,
        FORCE_RESIZABLE@,
        ENABLE_NON_RESIZABLE_MULTI_WINDOW@,
    ] + if sdk >= 36 {
        seq![OVERRIDE_DESKTOP_EXPERIENCE@]
    } else {
        Seq::<Seq<char>>::empty()
    }
}

/// The settings that Desktop diagnostics report: the written ones, and the legacy switch from
/// API 36.
pub open spec fn diagnostic_keys_spec(sdk: u32) -> Seq<Seq<char>> {
    desktop_keys_spec(sdk) + if sdk >= 36 {
        seq![OVERRIDE_DESKTOP_MODE@]
    } else {
        Seq::<Seq<char>>::empty()
    }
}

pub fn desktop_setting_keys(sdk: u32) -> (r: Vec<&'static str>)
    ensures
        str_views(r@) == desktop_keys_spec(sdk),
{
    let mut r: Vec<&'static str> = Vec::new();
    r.push(FORCE_DESKTOP);
    r.push(ENABLE_FREEFORM);
    r.push(FORCE_RESIZABLE);
    r.push(ENABLE_NON_RESIZABLE_MULTI_WINDOW);
    if sdk >= 36 {
        r.push(OVERRIDE_DESKTOP_EXPERIENCE);
    }
    assert(str_views(r@) =~= desktop_keys_spec(sdk));
    r
}

pub fn diagnostic_setting_keys(sdk: u32) -> (r: Vec<&'static str>)
    ensures
        str_views(r@) == diagnostic_keys_spec(sdk),
{
    let mut r = desktop_setting_keys(sdk);
    let ghost before = r@;
    if sdk >= 36 {
        r.push(OVERRIDE_DESKTOP_MODE);
    }
    assert(str_views(r@) =~= diagnostic_keys_spec(sdk));
    r
}

pub open spec fn diag_pairs(v: Seq<DesktopSettingDiagnostic>) -> Seq<(Seq<char>, Option<Seq<char>>)> {
    v.map_values(|d: DesktopSettingDiagnostic| (d.key@, crate::text::opt_view(d.value)))
}

/// Each key with the value read for it: the output of `settings get global KEY`, or `None`
/// where the command failed.
pub open spec fn setting_diagnostics_spec(keys: Seq<Seq<char>>, outputs: Seq<Option<Seq<char>>>) -> Seq<
    (Seq<char>, Option<Seq<char>>),
> {
    Seq::new(
        keys.len(),
        |i: int|
            (
                keys[i],
                match outputs[i] {
                    Some(o) => setting_value(o),
                    None => None,
                },
            ),
    )
}

pub open spec fn opt_str_views(v: Seq<Option<String>>) -> Seq<Option<Seq<char>>> {
    v.map_values(|o: Option<String>| crate::text::opt_view(o))
}

/// Each key paired with the value read for it (see `setting_diagnostics_spec`).
pub(crate) fn settings_for(keys: &Vec<&str>, outputs: &Vec<Option<String>>) -> (r: Vec<
    DesktopSettingDiagnostic,
>)
    requires
        keys@.len() == outputs@.len(),
    ensures
        diag_pairs(r@) == setting_diagnostics_spec(str_views(keys@), opt_str_views(outputs@)),
{
    let ghost want = setting_diagnostics_spec(str_views(keys@), opt_str_views(outputs@));
    let mut r: Vec<DesktopSettingDiagnostic> = Vec::new();
    let mut i: usize = 0;
    while i < keys.len()
        invariant
            i <= keys@.len() == outputs@.len(),
            want == setting_diagnostics_spec(str_views(keys@), opt_str_views(outputs@)),
            diag_pairs(r@) =~= want.take(i as int),
        decreases keys@.len() - i,
    {
        let value = match &outputs[i] {
            Some(o) => get_global_setting(o.as_str()),
            None => None,
        };
        let d = DesktopSettingDiagnostic { key: String::from_str(keys[i]), value: value };
        let ghost b = diag_pairs(r@);
        r.push(d);
        assert(diag_pairs(r@) =~= b.push((d.key@, crate::text::opt_view(d.value))));
        assert(str_views(keys@)[i as int] == keys@[i as int]@);
        assert(opt_str_views(outputs@)[i as int] == crate::text::opt_view(outputs@[i as int]));
        i += 1;
    }
    r
}

/// The desktop settings reported for diagnostics on a phone running API `sdk`: each key of
/// `diagnostic_setting_keys(sdk)`, in that order, with the value read for it. `outputs[i]`
/// is what `settings get global` printed for the `i`-th key, `None` where the command
/// failed; a failed read leaves that setting unknown and the others are still reported.
pub fn read_setting_diagnostics(sdk: u32, outputs: &Vec<Option<String>>) -> (r: Vec<
    DesktopSettingDiagnostic,
>)
    requires
        outputs@.len() == diagnostic_keys_spec(sdk).len(),
    ensures
        diag_pairs(r@) == setting_diagnostics_spec(diagnostic_keys_spec(sdk), opt_str_views(outputs@)),
        r@.len() == diagnostic_keys_spec(sdk).len(),
        forall|i: int| 0 <= i < r@.len() ==> (#[trigger] r@[i]).key@ == diagnostic_keys_spec(sdk)[i],
{
    let keys = diagnostic_setting_keys(sdk);
    let r = settings_for(&keys, outputs);
    proof {
        let want = setting_diagnostics_spec(diagnostic_keys_spec(sdk), opt_str_views(outputs@));
        assert(diag_pairs(r@).len() == r@.len());
        assert(want.len() == diagnostic_keys_spec(sdk).len());
        assert forall|i: int| 0 <= i < r@.len() implies (#[trigger] r@[i]).key@ == diagnostic_keys_spec(
            sdk,
        )[i] by {
            assert(diag_pairs(r@)[i] == (r@[i].key@, crate::text::opt_view(r@[i].value)));
            assert(want[i].0 == diagnostic_keys_spec(sdk)[i]);
        }
    }
    r
}

/// The value of the first setting with that key is `1` or `true`.
pub open spec fn setting_enabled(settings: Seq<(Seq<char>, Option<Seq<char>>)>, key: Seq<char>) -> bool
    decreases settings.len(),
{
    if settings.len() == 0 {
        false
    } else if settings[0].0 == key {
        match settings[0].1 {
            Some(v) => v == "1"@ || eq_ignore_case(v, "true"@),
            None => false,
        }
    } else {
        setting_enabled(settings.drop_first(), key)
    }
}

pub fn diagnostic_setting_enabled(settings: &Vec<DesktopSettingDiagnostic>, key: &str) -> (r: bool)
    ensures
        r == setting_enabled(diag_pairs(settings@), key@),
{
    let ghost sv = diag_pairs(settings@);
    let mut i: usize = 0;
    assert(sv.skip(0) =~= sv);
    while i < settings.len()
        invariant
            i <= settings@.len(),
            sv == diag_pairs(settings@),
            setting_enabled(sv, key@) == setting_enabled(sv.skip(i as int), key@),
        decreases settings@.len() - i,
    {
        assert(sv.skip(i as int)[0] == sv[i as int]);
        assert(sv.skip(i as int).drop_first() =~= sv.skip(i + 1 as int));
        if crate::text::str_is(&settings[i].key, key) {
            return match &settings[i].value {
                Some(v) => crate::text::str_is(v, "1") || eq_ignore_case_exec(
                    &chars_of(v.as_str()),
                    "true",
                ),
                None => false,
            };
        }
        i += 1;
    }
    false
}

/// Every setting that preparation writes reads back enabled.
pub open spec fn settings_applied_spec(settings: Seq<(Seq<char>, Option<Seq<char>>)>, sdk: u32) -> bool {
    forall|i: int|
        0 <= i < desktop_keys_spec(sdk).len() ==> setting_enabled(
            settings,
            #[trigger] desktop_keys_spec(sdk)[i],
        )
}

pub fn developer_settings_applied(settings: &Vec<DesktopSettingDiagnostic>, sdk: u32) -> (r: bool)
    ensures
        r == settings_applied_spec(diag_pairs(settings@), sdk),
{
    let keys = desktop_setting_keys(sdk);
    let mut i: usize = 0;
    while i < keys.len()
        invariant
            i <= keys@.len(),
            str_views(keys@) == desktop_keys_spec(sdk),
            forall|j: int|
                0 <= j < i ==> setting_enabled(
                    diag_pairs(settings@),
                    #[trigger] desktop_keys_spec(sdk)[j],
                ),
        decreases keys@.len() - i,
    {
        assert(str_views(keys@)[i as int] == keys@[i as int]@);
        if !diagnostic_setting_enabled(settings, keys[i]) {
            return false;
        }
        i += 1;
    }
    true
}

/// Offering to prepare desktop windowing: the display works, DeX is not already capturable,
/// the settings are not yet applied, Android 10 or newer, and desktop support is declared or
/// the phone runs API 36 or newer.
pub open spec fn can_prepare_spec(
    supported: bool,
    dex_capturable: bool,
    sdk: u32,
    android_desktop_available: bool,
    settings_applied: bool,
) -> bool {
    supported && !dex_capturable && !settings_applied && sdk >= 29 && (android_desktop_available
        || sdk >= 36)
}

pub fn can_prepare_desktop_experience(
    supported: bool,
    dex_capturable: bool,
    sdk: u32,
    android_desktop_available: bool,
    settings_applied: bool,
) -> (r: bool)
    ensures
        r == can_prepare_spec(supported, dex_capturable, sdk, android_desktop_available, settings_applied),
{
    supported && !dex_capturable && !settings_applied && sdk >= 29 && (android_desktop_available
        || sdk >= 36)
}

// ---------------------------------------------------------------------------
// What the phone reports about desktop environments
// ---------------------------------------------------------------------------

/// What the phone reports about its desktop environments.
pub struct PlatformSnapshot {
    pub settings: Vec<DesktopSettingDiagnostic>,
    pub evidence: Vec<String>,
    pub android_desktop_available: bool,
    pub samsung_dex_available: bool,
    pub samsung_dex_active: bool,
    pub samsung_dex_display_id: Option<u32>,
}

/// The raw answers a platform snapshot is made from, as the phone gave them.
pub struct PlatformReadings {
    /// The phone's API level.
    pub sdk: u32,
    /// What `settings get global` printed for each key of `diagnostic_setting_keys(sdk)`, in
    /// order; `None` where the command failed.
    pub setting_outputs: Vec<Option<String>>,
    /// `config_isDesktopModeSupported`.
    pub desktop_mode_supported: Option<bool>,
    /// `config_isDesktopModeDevOptionSupported`.
    pub desktop_dev_option_supported: Option<bool>,
    /// `config_supportsMultiWindow`.
    pub supports_multi_window: Option<bool>,
    /// `config_freeformWindowManagement`.
    pub freeform_window_management: Option<bool>,
    /// Output of `pm has-feature android.software.freeform_window_management`.
    pub freeform_feature: Option<String>,
    /// Whether `pm path` found a Samsung desktop launcher.
    pub launcher_installed: bool,
    /// Output of `dumpsys desktopmode` (empty when it failed).
    pub desktop_service: String,
    /// Output of `dumpsys activity activities` (empty when it failed).
    pub activity_dump: String,
    /// Output of `dumpsys display` (empty when it failed).
    pub display_dump: String,
}

pub open spec fn bool_text(b: bool) -> Seq<char> {
    if b {
        "true"@
    } else {
        "false"@
    }
}

pub open spec fn launcher_components() -> Seq<Seq<char>> {
    seq!["com.sec.android.app.desktoplauncher"@, "com.samsung.android.app.desktoplauncher"@]
}

pub open spec fn is_samsung(brand: Seq<char>) -> bool {
    contains(lower(brand), "samsung"@)
}

/// Whether the brand names Samsung, in any letter case: only then are Samsung DeX's state
/// and dumps read.
pub fn is_samsung_brand(brand: &str) -> (b: bool)
    ensures
        b == is_samsung(brand@),
{
    contains_str(&to_lower(&chars_of(brand)), "samsung")
}

pub open spec fn freeform_feature_on(f: Option<String>) -> bool {
    f matches Some(v) && eq_ignore_case(trim(v@), "true"@)
}

pub open spec fn android_desktop_spec(r: PlatformReadings) -> bool {
    r.desktop_mode_supported == Some(true) || r.desktop_dev_option_supported == Some(true)
        || r.freeform_window_management == Some(true) || freeform_feature_on(r.freeform_feature)
}

pub open spec fn service_present(service: Seq<char>) -> bool {
    trim(service).len() > 0 && !contains(lower(service), "not found"@)
}

pub open spec fn dex_available_spec(r: PlatformReadings, brand: Seq<char>) -> bool {
    is_samsung(brand) && (r.launcher_installed || service_present(r.desktop_service@))
}

pub open spec fn samsung_text(t: Seq<char>, brand: Seq<char>) -> Seq<char> {
    if is_samsung(brand) {
        t
    } else {
        Seq::<char>::empty()
    }
}

pub open spec fn dex_active_of(r: PlatformReadings, brand: Seq<char>) -> bool {
    dex_available_spec(r, brand) && (dex_active_spec(samsung_text(r.desktop_service@, brand))
        || component_display_spec(samsung_text(r.activity_dump@, brand), launcher_components()) is Some
        || named_scan(lines(samsung_text(r.display_dump@, brand)), None) is Some)
}

pub open spec fn dex_display_of(r: PlatformReadings, brand: Seq<char>) -> Option<u32> {
    if dex_active_of(r, brand) {
        or_else(
            component_display_spec(samsung_text(r.activity_dump@, brand), launcher_components()),
            or_else(
                dex_display_spec(samsung_text(r.desktop_service@, brand)),
                named_scan(lines(samsung_text(r.display_dump@, brand)), None),
            ),
        )
    } else {
        None
    }
}

pub open spec fn overlay_evidence(r: PlatformReadings) -> Seq<char> {
    "OEM overlays: desktopModeSupported="@ + optional_bool_spec(r.desktop_mode_supported)
        + ", desktopDevOptionSupported="@ + optional_bool_spec(r.desktop_dev_option_supported)
        + ", supportsMultiWindow="@ + optional_bool_spec(r.supports_multi_window)
        + ", freeformWindowManagement="@ + optional_bool_spec(r.freeform_window_management)
}

pub open spec fn dex_evidence(available: bool, active: bool, id: Option<u32>) -> Seq<char> {
    "Samsung DeX service: installed="@ + bool_text(available) + ", active="@ + bool_text(active)
        + ", displayId="@ + match id {
        Some(d) => dec(d as nat),
        None => "none"@,
    }
}

pub open spec fn inputs_note() -> Seq<char> {
    "Developer settings are reported as inputs only; they are not treated as proof that a desktop shell is running."@
}

pub open spec fn evidence_spec(r: PlatformReadings, brand: Seq<char>) -> Seq<Seq<char>> {
    seq![overlay_evidence(r)] + (match r.freeform_feature {
        Some(f) => seq!["Freeform feature: "@ + trim(f@)],
        None => Seq::<Seq<char>>::empty(),
    }) + (if is_samsung(brand) {
        seq![dex_evidence(dex_available_spec(r, brand), dex_active_of(r, brand), dex_display_of(r, brand))]
    } else {
        Seq::<Seq<char>>::empty()
    }) + seq![inputs_note()]
}

fn bool_string(b: bool) -> (r: &'static str)
    ensures
        r@ == bool_text(b),
{
    if b {
        "true"
    } else {
        "false"
    }
}

fn samsung_text_exec(t: &String, samsung: bool) -> (r: Vec<char>)
    ensures
        r@ == (if samsung {
            t@
        } else {
            Seq::<char>::empty()
        }),
{
    if samsung {
        chars_of(t.as_str())
    } else {
        Vec::new()
    }
}

/// Decides what the phone offers from its raw readings.
pub fn collect_platform_snapshot(readings: PlatformReadings, brand: &str) -> (p: PlatformSnapshot)
    requires
        readings.setting_outputs@.len() == diagnostic_keys_spec(readings.sdk).len(),
    ensures
        diag_pairs(p.settings@) == setting_diagnostics_spec(
            diagnostic_keys_spec(readings.sdk),
            opt_str_views(readings.setting_outputs@),
        ),
        p.settings@.len() == diagnostic_keys_spec(readings.sdk).len(),
        forall|i: int|
            0 <= i < p.settings@.len() ==> (#[trigger] p.settings@[i]).key@ == diagnostic_keys_spec(
                readings.sdk,
            )[i],
        strs(p.evidence@) == evidence_spec(readings, brand@),
        p.android_desktop_available == android_desktop_spec(readings),
        p.samsung_dex_available == dex_available_spec(readings, brand@),
        p.samsung_dex_active == dex_active_of(readings, brand@),
        p.samsung_dex_display_id == dex_display_of(readings, brand@),
{
    let ghost rd = readings;
    let settings = read_setting_diagnostics(readings.sdk, &readings.setting_outputs);
    let samsung = is_samsung_brand(brand);
    let mut evidence: Vec<String> = Vec::new();
    let mut e1 = String::from_str("OEM overlays: desktopModeSupported=");
    e1.append(optional_bool(readings.desktop_mode_supported));
    e1.append(", desktopDevOptionSupported=");
    e1.append(optional_bool(readings.desktop_dev_option_supported));
    e1.append(", supportsMultiWindow=");
    e1.append(optional_bool(readings.supports_multi_window));
    e1.append(", freeformWindowManagement=");
    e1.append(optional_bool(readings.freeform_window_management));
    push_str(&mut evidence, e1);
    let ghost ev1 = strs(evidence@);
    let feature_on = match &readings.freeform_feature {
        Some(f) => {
            let t = trimmed(&chars_of(f.as_str()));
            push_str(&mut evidence, crate::text::concat2("Freeform feature: ", &t));
            eq_ignore_case_exec(&t, "true")
        },
        None => false,
    };
    let ghost ev2 = strs(evidence@);
    let android_desktop = readings.desktop_mode_supported == Some(true)
        || readings.desktop_dev_option_supported == Some(true)
        || readings.freeform_window_management == Some(true) || feature_on;
    let service = samsung_text_exec(&readings.desktop_service, samsung);
    let present = {
        let st = trimmed(&chars_of(readings.desktop_service.as_str()));
        st.len() > 0 && !contains_str(&to_lower(&chars_of(readings.desktop_service.as_str())), "not found")
    };
    let dex_available = samsung && (readings.launcher_installed || present);
    let activity = samsung_text_exec(&readings.activity_dump, samsung);
    let display = samsung_text_exec(&readings.display_dump, samsung);
    let comps: [&str; 2] = ["com.sec.android.app.desktoplauncher", "com.samsung.android.app.desktoplauncher"];
    let activity_s = string_of(&activity);
    let display_s = string_of(&display);
    let service_s = string_of(&service);
    let launcher_id = component_display_id(activity_s.as_str(), &comps);
    assert(str_views(comps@) =~= launcher_components());
    let named_id = named_desktop_display_id(display_s.as_str());
    let dex_active = dex_available && (is_samsung_dex_active(service_s.as_str())
        || launcher_id.is_some() || named_id.is_some());
    let dex_id = if dex_active {
        if launcher_id.is_some() {
            launcher_id
        } else {
            let from_service = parse_samsung_dex_display_id(service_s.as_str());
            if from_service.is_some() {
                from_service
            } else {
                named_id
            }
        }
    } else {
        None
    };
    if samsung {
        let mut e3 = String::from_str("Samsung DeX service: installed=");
        e3.append(bool_string(dex_available));
        e3.append(", active=");
        e3.append(bool_string(dex_active));
        e3.append(", displayId=");
        match dex_id {
            Some(d) => e3.append(u32_text(d).as_str()),
            None => e3.append("none"),
        }
        push_str(&mut evidence, e3);
    }
    push_str(
        &mut evidence,
        String::from_str(
            "Developer settings are reported as inputs only; they are not treated as proof that a desktop shell is running.",
        ),
    );
    assert(strs(evidence@) =~= evidence_spec(rd, brand@));
    PlatformSnapshot {
        settings: settings,
        evidence: evidence,
        android_desktop_available: android_desktop,
        samsung_dex_available: dex_available,
        samsung_dex_active: dex_active,
        samsung_dex_display_id: dex_id,
    }
}

// ---------------------------------------------------------------------------
// Desktop capabilities
// ---------------------------------------------------------------------------

/// Why no virtual-display probe can run: Android below 5.0, or a scrcpy without
/// `--new-display`.
pub open spec fn probe_blocker_spec(sdk: u32, android_version: Seq<char>, help: Seq<char>) -> Option<
    Seq<char>,
> {
    if sdk < 21 {
        Some(
            "Android "@ + android_version + " (API "@ + dec(sdk as nat)
                + ") is below scrcpy 4.1's Android 5.0 requirement."@,
        )
    } else if !contains(help, "--new-display"@) {
        Some(
            "The installed scrcpy runtime does not expose --new-display. Update the runtime to use Virtual Display."@,
        )
    } else {
        None
    }
}

pub fn desktop_probe_blocker(sdk: u32, android_version: &str, help: &str) -> (r: Option<String>)
    ensures
        crate::text::opt_view(r) == probe_blocker_spec(sdk, android_version@, help@),
{
    if sdk < 21 {
        let mut m = String::from_str("Android ");
        m.append(android_version);
        m.append(" (API ");
        m.append(u32_text(sdk).as_str());
        m.append(") is below scrcpy 4.1's Android 5.0 requirement.");
        Some(m)
    } else if !contains_str(&chars_of(help), "--new-display") {
        Some(
            String::from_str(
                "The installed scrcpy runtime does not expose --new-display. Update the runtime to use Virtual Display.",
            ),
        )
    } else {
        None
    }
}

/// The capabilities reported when no probe could run.
pub fn unavailable_capabilities(
    message: String,
    platform: &PlatformSnapshot,
    geometry: (u32, u32, u32),
    launcher_package: Option<String>,
    backup_available: bool,
) -> (c: DesktopCapabilities)
    ensures
        !c.supported,
        c.environment_kind@ == "unavailable"@,
        c.environment_label@ == "Unavailable"@,
        c.launch_label@ == "Virtual Display unavailable"@,
        !c.virtual_display_supported,
        c.android_desktop_windowing_available == platform.android_desktop_available,
        !c.android_desktop_windowing_active,
        c.samsung_dex_available == platform.samsung_dex_available,
        c.samsung_dex_active == platform.samsung_dex_active,
        c.existing_display_id is None,
        (c.recommended_width, c.recommended_height, c.recommended_density) == geometry,
        !c.flex_supported && !c.system_decorations_supported && !c.keep_content_supported,
        c.launcher_package == launcher_package,
        c.startup_package@ == Seq::<char>::empty(),
        !c.desktop_experience_prepared && !c.desktop_experience_can_prepare,
        c.desktop_experience_backup_available == backup_available,
        c.desktop_experience_summary@ == message@,
        c.message@ == message@,
        diag_pairs(c.diagnostics.relevant_settings@) == diag_pairs(platform.settings@),
        strs(c.diagnostics.platform_evidence@) == strs(platform.evidence@),
        c.diagnostics.exit_result@ == "probe not run"@,
        c.diagnostics.command@ == Seq::<char>::empty(),
        c.diagnostics.display_id is None,
        c.diagnostics.display_name is None,
        c.diagnostics.resolution is None,
        c.diagnostics.density is None,
        c.diagnostics.launcher_activity is None,
        c.diagnostics.windowing_mode@ == "unknown"@,
        c.diagnostics.scrcpy_output@ == Seq::<char>::empty(),
        c.diagnostics.log_path is None,
{
    let diagnostics = DesktopDiagnostics {
        command: String::new(),
        exit_result: String::from_str("probe not run"),
        display_id: None,
        display_name: None,
        resolution: None,
        density: None,
        launcher_activity: None,
        windowing_mode: String::from_str("unknown"),
        relevant_settings: copy_diagnostics(&platform.settings),
        platform_evidence: crate::text::copy_strings(&platform.evidence),
        scrcpy_output: String::new(),
        log_path: None,
    };
    DesktopCapabilities {
        supported: false,
        environment_kind: String::from_str("unavailable"),
        environment_label: String::from_str("Unavailable"),
        launch_label: String::from_str("Virtual Display unavailable"),
        virtual_display_supported: false,
        android_desktop_windowing_available: platform.android_desktop_available,
        android_desktop_windowing_active: false,
        samsung_dex_available: platform.samsung_dex_available,
        samsung_dex_active: platform.samsung_dex_active,
        existing_display_id: None,
        recommended_width: geometry.0,
        recommended_height: geometry.1,
        recommended_density: geometry.2,
        flex_supported: false,
        system_decorations_supported: false,
        keep_content_supported: false,
        launcher_package: launcher_package,
        startup_package: String::new(),
        desktop_experience_prepared: false,
        desktop_experience_can_prepare: false,
        desktop_experience_backup_available: backup_available,
        desktop_experience_summary: crate::text::copy_string(&message),
        message: message,
        diagnostics: diagnostics,
    }
}

/// A copy of a list of settings.
pub fn copy_diagnostics(v: &Vec<DesktopSettingDiagnostic>) -> (r: Vec<DesktopSettingDiagnostic>)
    ensures
        diag_pairs(r@) == diag_pairs(v@),
{
    let mut r: Vec<DesktopSettingDiagnostic> = Vec::new();
    let mut i: usize = 0;
    while i < v.len()
        invariant
            i <= v@.len(),
            diag_pairs(r@) =~= diag_pairs(v@).take(i as int),
        decreases v@.len() - i,
    {
        let d = DesktopSettingDiagnostic {
            key: crate::text::copy_string(&v[i].key),
            value: crate::text::copy_opt_string(&v[i].value),
        };
        let ghost b = diag_pairs(r@);
        r.push(d);
        assert(diag_pairs(r@) =~= b.push((d.key@, crate::text::opt_view(d.value))));
        i += 1;
    }
    r
}

pub open spec fn dex_capturable(platform: PlatformSnapshot) -> bool {
    platform.samsung_dex_active && platform.samsung_dex_display_id is Some
}

pub open spec fn desktop_active(d: DesktopDiagnostics) -> bool {
    d.windowing_mode@ == "freeform"@ || d.windowing_mode@ == "desktop"@
}

/// Why the probe failed: the last scrcpy line, else the exit result.
pub open spec fn probe_failure_detail(d: DesktopDiagnostics) -> Seq<char> {
    if trim(d.scrcpy_output@).len() == 0 {
        d.exit_result@
    } else {
        compact_error_spec(d.scrcpy_output@)
    }
}

/// Kind, label, launch label, captured display, summary and message of the environment.
pub open spec fn environment_spec(
    probe_success: bool,
    d: DesktopDiagnostics,
    platform: PlatformSnapshot,
) -> (Seq<char>, Seq<char>, Seq<char>, Option<u32>, Seq<char>, Seq<char>) {
    if dex_capturable(platform) {
        (
            "samsung_dex"@,
            "Samsung DeX"@,
            "Open Samsung DeX Display"@,
            platform.samsung_dex_display_id,
            "Samsung DeX is active on an external display and exposes a display ID that scrcpy can capture."@,
            "Samsung DeX was detected as an active external display. SCRCPY Studio will mirror that display instead of creating another virtual display."@,
        )
    } else if desktop_active(d) {
        (
            "android_desktop_windowing"@,
            "Android Desktop Windowing"@,
            "Launch Android Desktop"@,
            None,
            "The temporary scrcpy display actually entered freeform/desktop windowing."@,
            "Android Desktop Windowing was verified from the created display's real WindowManager state."@,
        )
    } else if probe_success {
        if platform.samsung_dex_available {
            (
                "virtual_display"@,
                "Virtual Display"@,
                "Launch Virtual Display"@,
                None,
                "Virtual Display is available. Samsung DeX exists on this phone but is not active on, or exposed to, the scrcpy-created display."@,
                "Virtual Display is ready. Samsung firmware kept the scrcpy display in phone-style windowing; current One UI requires a real HDMI or Miracast display to start DeX."@,
            )
        } else if platform.android_desktop_available {
            (
                "virtual_display"@,
                "Virtual Display"@,
                "Launch Virtual Display"@,
                None,
                "Virtual Display is available. Android desktop-related configuration exists, but the created display did not enter freeform/desktop windowing."@,
                "Virtual Display is ready, but the actual display stayed in fullscreen/phone-style windowing. SCRCPY Studio will not label it Android Desktop."@,
            )
        } else {
            (
                "virtual_display"@,
                "Virtual Display"@,
                "Launch Virtual Display"@,
                None,
                "Virtual Display is available; no real desktop shell was observed on the created display."@,
                "Virtual Display is ready. This device does not expose verified Android desktop windowing or Samsung DeX to the scrcpy-created display."@,
            )
        }
    } else {
        (
            "unavailable"@,
            "Unavailable"@,
            "Virtual Display unavailable"@,
            None,
            "scrcpy could not create a diagnostic virtual display."@,
            "Virtual Display probe failed: "@ + probe_failure_detail(d),
        )
    }
}

fn environment_exec(probe_success: bool, d: &DesktopDiagnostics, platform: &PlatformSnapshot) -> (r: (
    String,
    String,
    String,
    Option<u32>,
    String,
    String,
))
    ensures
        (r.0@, r.1@, r.2@, r.3, r.4@, r.5@) == environment_spec(probe_success, *d, *platform),
{
    let capturable = platform.samsung_dex_active && platform.samsung_dex_display_id.is_some();
    let active = crate::text::str_is(&d.windowing_mode, "freeform") || crate::text::str_is(
        &d.windowing_mode,
        "desktop",
    );
    if capturable {
        (
            String::from_str("samsung_dex"),
            String::from_str("Samsung DeX"),
            String::from_str("Open Samsung DeX Display"),
            platform.samsung_dex_display_id,
            String::from_str(
                "Samsung DeX is active on an external display and exposes a display ID that scrcpy can capture.",
            ),
            String::from_str(
                "Samsung DeX was detected as an active external display. SCRCPY Studio will mirror that display instead of creating another virtual display.",
            ),
        )
    } else if active {
        (
            String::from_str("android_desktop_windowing"),
            String::from_str("Android Desktop Windowing"),
            String::from_str("Launch Android Desktop"),
            None,
            String::from_str("The temporary scrcpy display actually entered freeform/desktop windowing."),
            String::from_str(
                "Android Desktop Windowing was verified from the created display's real WindowManager state.",
            ),
        )
    } else if probe_success {
        let (summary, message) = if platform.samsung_dex_available {
            (
                "Virtual Display is available. Samsung DeX exists on this phone but is not active on, or exposed to, the scrcpy-created display.",
                "Virtual Display is ready. Samsung firmware kept the scrcpy display in phone-style windowing; current One UI requires a real HDMI or Miracast display to start DeX.",
            )
        } else if platform.android_desktop_available {
            (
                "Virtual Display is available. Android desktop-related configuration exists, but the created display did not enter freeform/desktop windowing.",
                "Virtual Display is ready, but the actual display stayed in fullscreen/phone-style windowing. SCRCPY Studio will not label it Android Desktop.",
            )
        } else {
            (
                "Virtual Display is available; no real desktop shell was observed on the created display.",
                "Virtual Display is ready. This device does not expose verified Android desktop windowing or Samsung DeX to the scrcpy-created display.",
            )
        };
        (
            String::from_str("virtual_display"),
            String::from_str("Virtual Display"),
            String::from_str("Launch Virtual Display"),
            None,
            String::from_str(summary),
            String::from_str(message),
        )
    } else {
        let out = trimmed(&chars_of(d.scrcpy_output.as_str()));
        let detail = if out.len() == 0 {
            crate::text::copy_string(&d.exit_result)
        } else {
            compact_error(d.scrcpy_output.as_str())
        };
        (
            String::from_str("unavailable"),
            String::from_str("Unavailable"),
            String::from_str("Virtual Display unavailable"),
            None,
            String::from_str("scrcpy could not create a diagnostic virtual display."),
            crate::text::lit_plus("Virtual Display probe failed: ", &detail),
        )
    }
}

/// The capabilities decided from a probe's outcome and the platform snapshot.
pub fn desktop_capabilities(
    probe_success: bool,
    diagnostics: DesktopDiagnostics,
    platform: &PlatformSnapshot,
    sdk: u32,
    geometry: (u32, u32, u32),
    launcher_package: Option<String>,
    backup_available: bool,
    help: &str,
) -> (c: DesktopCapabilities)
    ensures
        (c.environment_kind@, c.environment_label@, c.launch_label@, c.existing_display_id,
            c.desktop_experience_summary@, c.message@) == environment_spec(
            probe_success,
            diagnostics,
            *platform,
        ),
        c.supported == (probe_success || dex_capturable(*platform)),
        c.virtual_display_supported == probe_success,
        c.android_desktop_windowing_available == platform.android_desktop_available,
        c.android_desktop_windowing_active == desktop_active(diagnostics),
        c.samsung_dex_available == platform.samsung_dex_available,
        c.samsung_dex_active == dex_capturable(*platform),
        (c.recommended_width, c.recommended_height, c.recommended_density) == geometry,
        c.flex_supported == (contains(help@, "--flex-display"@) && c.existing_display_id is None),
        c.system_decorations_supported == (contains(help@, "--no-vd-system-decorations"@)
            && c.existing_display_id is None),
        c.keep_content_supported == (contains(help@, "--no-vd-destroy-content"@)
            && c.existing_display_id is None),
        c.launcher_package == launcher_package,
        c.startup_package@ == Seq::<char>::empty(),
        c.desktop_experience_prepared == (desktop_active(diagnostics) || dex_capturable(*platform)),
        c.desktop_experience_can_prepare == can_prepare_spec(
            probe_success || dex_capturable(*platform),
            dex_capturable(*platform),
            sdk,
            platform.android_desktop_available,
            settings_applied_spec(diag_pairs(platform.settings@), sdk),
        ),
        c.desktop_experience_backup_available == backup_available,
        c.diagnostics == diagnostics,
{
    let (kind, label, launch, existing, summary, message) = environment_exec(
        probe_success,
        &diagnostics,
        platform,
    );
    let capturable = platform.samsung_dex_active && platform.samsung_dex_display_id.is_some();
    let active = crate::text::str_is(&diagnostics.windowing_mode, "freeform")
        || crate::text::str_is(&diagnostics.windowing_mode, "desktop");
    let supported = probe_success || capturable;
    let applied = developer_settings_applied(&platform.settings, sdk);
    let can_prepare = can_prepare_desktop_experience(
        supported,
        capturable,
        sdk,
        platform.android_desktop_available,
        applied,
    );
    let h = chars_of(help);
    DesktopCapabilities {
        supported: supported,
        environment_kind: kind,
        environment_label: label,
        launch_label: launch,
        virtual_display_supported: probe_success,
        android_desktop_windowing_available: platform.android_desktop_available,
        android_desktop_windowing_active: active,
        samsung_dex_available: platform.samsung_dex_available,
        samsung_dex_active: capturable,
        existing_display_id: existing,
        recommended_width: geometry.0,
        recommended_height: geometry.1,
        recommended_density: geometry.2,
        flex_supported: contains_str(&h, "--flex-display") && existing.is_none(),
        system_decorations_supported: contains_str(&h, "--no-vd-system-decorations")
            && existing.is_none(),
        keep_content_supported: contains_str(&h, "--no-vd-destroy-content") && existing.is_none(),
        launcher_package: launcher_package,
        startup_package: String::new(),
        desktop_experience_prepared: active || capturable,
        desktop_experience_can_prepare: can_prepare,
        desktop_experience_backup_available: backup_available,
        desktop_experience_summary: summary,
        message: message,
        diagnostics: diagnostics,
    }
}

// ---------------------------------------------------------------------------
// What the desktop verdicts guarantee
// ---------------------------------------------------------------------------

/// Every setting that preparation writes is among those the diagnostics report, in the same
/// order and first.
pub proof fn lemma_diagnostics_cover_written_settings(sdk: u32)
    ensures
        desktop_keys_spec(sdk).len() <= diagnostic_keys_spec(sdk).len(),
        forall|i: int|
            0 <= i < desktop_keys_spec(sdk).len() ==> #[trigger] diagnostic_keys_spec(sdk)[i]
                == desktop_keys_spec(sdk)[i],
{
}

/// Preparation is offered only while some setting it writes is not applied yet.
pub proof fn lemma_applied_settings_hide_preparation(
    settings: Seq<(Seq<char>, Option<Seq<char>>)>,
    sdk: u32,
    supported: bool,
    dex_capturable: bool,
    android_desktop_available: bool,
)
    requires
        settings_applied_spec(settings, sdk),
    ensures
        !can_prepare_spec(
            supported,
            dex_capturable,
            sdk,
            android_desktop_available,
            settings_applied_spec(settings, sdk),
        ),
{
}

/// The desktop environment is named only on evidence: Samsung DeX only when DeX shows a
/// capturable display, Android Desktop Windowing only when the created display was observed
/// in freeform or desktop windowing, Virtual Display only when the probe succeeded.
pub proof fn lemma_environment_needs_evidence(
    probe_success: bool,
    d: DesktopDiagnostics,
    platform: PlatformSnapshot,
)
    ensures
        environment_spec(probe_success, d, platform).0 == "samsung_dex"@ ==> dex_capturable(platform),
        environment_spec(probe_success, d, platform).0 == "android_desktop_windowing"@
            ==> desktop_active(d),
        environment_spec(probe_success, d, platform).0 == "virtual_display"@ ==> probe_success,
{
    reveal_strlit("samsung_dex");
    reveal_strlit("android_desktop_windowing");
    reveal_strlit("virtual_display");
    reveal_strlit("unavailable");
    assert("samsung_dex"@[0] != "unavailable"@[0]);
    assert("samsung_dex"@.len() != "android_desktop_windowing"@.len());
    assert("samsung_dex"@.len() != "virtual_display"@.len());
    assert("android_desktop_windowing"@.len() != "virtual_display"@.len());
    assert("android_desktop_windowing"@.len() != "unavailable"@.len());
    assert("virtual_display"@.len() != "unavailable"@.len());
}

/// The environment follows the evidence, strongest first: a capturable Samsung DeX display,
/// then a created display observed in freeform or desktop windowing, then a created display
/// at all (Virtual Display); only when none of these was seen is Desktop Mode unavailable.
pub proof fn lemma_environment_from_evidence(
    probe_success: bool,
    d: DesktopDiagnostics,
    platform: PlatformSnapshot,
)
    ensures
        dex_capturable(platform) ==> environment_spec(probe_success, d, platform).0 == "samsung_dex"@
            && environment_spec(probe_success, d, platform).3 == platform.samsung_dex_display_id,
        !dex_capturable(platform) && desktop_active(d) ==> environment_spec(
            probe_success,
            d,
            platform,
        ).0 == "android_desktop_windowing"@ && environment_spec(probe_success, d, platform).3 is None,
        !dex_capturable(platform) && !desktop_active(d) && probe_success ==> environment_spec(
            probe_success,
            d,
            platform,
        ).0 == "virtual_display"@ && environment_spec(probe_success, d, platform).1
            == "Virtual Display"@ && environment_spec(probe_success, d, platform).2
            == "Launch Virtual Display"@ && environment_spec(probe_success, d, platform).3 is None,
        environment_spec(probe_success, d, platform).0 == "unavailable"@ <==> (!probe_success
            && !dex_capturable(platform) && !desktop_active(d)),
{
    reveal_strlit("samsung_dex");
    reveal_strlit("android_desktop_windowing");
    reveal_strlit("virtual_display");
    reveal_strlit("unavailable");
    assert("samsung_dex"@[0] != "unavailable"@[0]);
    assert("android_desktop_windowing"@.len() != "unavailable"@.len());
    assert("virtual_display"@.len() != "unavailable"@.len());
}

/// An error message is at most 220 characters and an ellipsis.
pub proof fn lemma_compact_error_is_short(text: Seq<char>)
    ensures
        compact_error_spec(text).len() <= 221,
{
    reveal_strlit("…");
}

/// Captured output is kept to 16 000 characters and the truncation note.
pub proof fn lemma_output_is_capped(text: Seq<char>)
    ensures
        cap_output_spec(text).len() <= 16000 + "\n… output truncated"@.len(),
        text.len() <= 16000 ==> cap_output_spec(text) == text,
{
}

} // verus!
