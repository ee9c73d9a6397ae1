//! Recordings and screenshots: where they go, and which Android display a screenshot reads.
use vstd::prelude::*;
use crate::desktop::{join, join_exec};
use crate::number::{all_digits, dec, u32_text};
use crate::text::{
    chars_of, contains, contains_str, copy_range, ends_with, ends_with_str, first_some,
    last_index_of, last_index_of_char, lines, lines_of, opt_view, split_whitespace, split_ws,
    starts_with, starts_with_str, string_of, strs, trim, trimmed, views,
};

verus! {

broadcast use vstd::string::group_string_axioms;

// ---------------------------------------------------------------------------
// Folders and file names
// ---------------------------------------------------------------------------

/// The folder of the application's media, below the user's videos (or home) folder.
pub open spec fn media_folder() -> Seq<char> {
    "SCRCPY Studio"@
}

fn pair_of(a: &str, b: &str) -> (r: Vec<String>)
    ensures
        strs(r@) == seq![a@, b@],
{
    let mut v: Vec<String> = Vec::new();
    v.push(String::from_str(a));
    v.push(String::from_str(b));
    assert(strs(v@) =~= seq![a@, b@]);
    v
}

/// The recordings folder, as the folders below the videos folder.
pub fn recordings_root() -> (r: Vec<String>)
    ensures
        strs(r@) == seq![media_folder(), "Recordings"@],
{
    pair_of("SCRCPY Studio", "Recordings")
}

/// The screenshots folder, as the folders below the videos folder.
pub fn screenshots_root() -> (r: Vec<String>)
    ensures
        strs(r@) == seq![media_folder(), "Screenshots"@],
{
    pair_of("SCRCPY Studio", "Screenshots")
}

/// The file a recording started at `time` (`%H-%M-%S`) is written to, in the folder of its
/// day.
pub fn recording_file_name(time: &str) -> (r: String)
    ensures
        r@ == "SCRCPY-Studio-"@ + time@ + ".mp4"@,
{
    let mut r = String::from_str("SCRCPY-Studio-");
    r.append(time);
    r.append(".mp4");
    r
}

/// The file a screenshot taken at `stamp` (`%Y-%m-%d_%H-%M-%S`) is written to.
pub fn screenshot_file_name(stamp: &str) -> (r: String)
    ensures
        r@ == "SCRCPY-Studio-"@ + stamp@ + ".png"@,
{
    let mut r = String::from_str("SCRCPY-Studio-");
    r.append(stamp);
    r.append(".png");
    r
}

// ---------------------------------------------------------------------------
// Shell output
// ---------------------------------------------------------------------------

pub open spec fn result_view(r: Result<String, String>) -> Result<Seq<char>, Seq<char>> {
    match r {
        Ok(v) => Ok(v@),
        Err(e) => Err(e@),
    }
}

/// What an `adb shell` command gave: its output as printed, or its trimmed error output, or
/// when that is empty a message naming the command.
pub open spec fn shell_text_spec(success: bool, stdout: Seq<char>, stderr: Seq<char>, args: Seq<Seq<char>>) -> Result<
    Seq<char>,
    Seq<char>,
> {
    if !success {
        if trim(stderr).len() == 0 {
            Err("ADB command failed: "@ + join(args, " "@))
        } else {
            Err(trim(stderr))
        }
    } else {
        Ok(stdout)
    }
}

fn as_char_vecs(v: &Vec<String>) -> (r: Vec<Vec<char>>)
    ensures
        views(r@) == strs(v@),
{
    let mut r: Vec<Vec<char>> = Vec::new();
    let mut i: usize = 0;
    while i < v.len()
        invariant
            i <= v@.len(),
            views(r@) == strs(v@).take(i as int),
        decreases v@.len() - i,
    {
        let ghost b = views(r@);
        let c = chars_of(v[i].as_str());
        r.push(c);
        assert(strs(v@)[i as int] == v@[i as int]@);
        assert(views(r@) =~= b.push(c@));
        assert(strs(v@).take(i + 1 as int) =~= strs(v@).take(i as int).push(v@[i as int]@));
        i += 1;
    }
    assert(strs(v@).take(v@.len() as int) =~= strs(v@));
    r
}

/// `args` are the words after `adb -s <serial> shell`.
pub fn adb_shell_text(success: bool, stdout: String, stderr: &str, args: &Vec<String>) -> (r: Result<
    String,
    String,
>)
    ensures
        result_view(r) == shell_text_spec(success, stdout@, stderr@, strs(args@)),
{
    if !success {
        let detail = trimmed(&chars_of(stderr));
        if detail.len() == 0 {
            let words = join_exec(&as_char_vecs(args), " ");
            let mut e = String::from_str("ADB command failed: ");
            e.append(string_of(&words).as_str());
            return Err(e);
        }
        return Err(string_of(&detail));
    }
    Ok(stdout)
}

// ---------------------------------------------------------------------------
// Which display a screenshot reads
// ---------------------------------------------------------------------------

pub open spec fn device_prefix() -> Seq<char> {
    "mPrimaryDisplayDevice="@
}

/// The first of the lines `from..to` that, trimmed, starts with `mPrimaryDisplayDevice=`.
pub open spec fn candidate_from(ls: Seq<Seq<char>>, from: int, to: int) -> Option<int>
    decreases to - from,
{
    if from >= to {
        None
    } else if starts_with(trim(ls[from]), device_prefix()) {
        Some(from)
    } else {
        candidate_from(ls, from + 1, to)
    }
}

/// A display device written `name(unique id)`: the name and the id, split at the last `(`.
pub open spec fn device_value(value: Seq<char>) -> Option<(Seq<char>, Seq<char>)> {
    match last_index_of(value, '(') {
        None => None,
        Some(open) => {
            let rest = value.skip(open + 1);
            if ends_with(rest, ")"@) {
                Some((value.take(open), rest.drop_last()))
            } else {
                None
            }
        },
    }
}

pub open spec fn at_most(a: int, b: int) -> int {
    if a < b {
        a
    } else {
        b
    }
}

/// Scanning from line `i`: at a line that is the marker, the first device line among the
/// eight after it decides; with none there, the scan goes on.
pub open spec fn device_after(ls: Seq<Seq<char>>, marker: Seq<char>, i: nat) -> Option<
    (Seq<char>, Seq<char>),
>
    decreases ls.len() - i,
{
    if i >= ls.len() {
        None
    } else if trim(ls[i as int]) == marker {
        match candidate_from(ls, i + 1 as int, at_most(i + 9 as int, ls.len() as int)) {
            Some(j) => device_value(trim(ls[j]).skip(device_prefix().len() as int)),
            None => device_after(ls, marker, i + 1),
        }
    } else {
        device_after(ls, marker, i + 1)
    }
}

/// The display device (name and unique id) of logical display `id` in `dumpsys display`.
pub open spec fn logical_device_spec(text: Seq<char>, id: u32) -> Option<(Seq<char>, Seq<char>)> {
    device_after(lines(text), "mDisplayId="@ + dec(id as nat), 0)
}

pub open spec fn pair_view(r: Option<(String, String)>) -> Option<(Seq<char>, Seq<char>)> {
    match r {
        Some((a, b)) => Some((a@, b@)),
        None => None,
    }
}

fn device_value_exec(value: &[char]) -> (r: Option<(String, String)>)
    ensures
        pair_view(r) == device_value(value@),
{
    match last_index_of_char(value, '(') {
        None => None,
        Some(open) => {
            proof {
                crate::text::lemma_last_index_of(value@, '(');
                reveal_strlit(")");
            }
            let n = value.len();
            assert(open < n);
            let rest = copy_range(value, open + 1, n);
            assert(rest@ =~= value@.skip(open + 1));
            if ends_with_str(&rest, ")") {
                assert(rest@.len() >= 1);
                let name = copy_range(value, 0, open);
                let uid = copy_range(&rest, 0, rest.len() - 1);
                assert(name@ =~= value@.take(open as int));
                assert(uid@ =~= rest@.drop_last());
                Some((string_of(&name), string_of(&uid)))
            } else {
                None
            }
        },
    }
}

pub fn logical_display_device(text: &str, display_id: u32) -> (r: Option<(String, String)>)
    ensures
        pair_view(r) == logical_device_spec(text@, display_id),
{
    let mut marker = String::from_str("mDisplayId=");
    marker.append(u32_text(display_id).as_str());
    let mc = chars_of(marker.as_str());
    let ls = lines_of(&chars_of(text));
    let ghost lv = views(ls@);
    let n = ls.len();
    let mut i: usize = 0;
    while i < n
        invariant
            n == ls@.len() == lv.len(),
            lv == views(ls@),
            lv == lines(text@),
            mc@ == "mDisplayId="@ + dec(display_id as nat),
            i <= n,
            logical_device_spec(text@, display_id) == device_after(lv, mc@, i as nat),
        decreases n - i,
    {
        assert(lv[i as int] == ls@[i as int]@);
        let t = trimmed(&ls[i]);
        if crate::text::eq_chars(&t, &mc) {
            let end: usize = if n - i > 9 {
                i + 9
            } else {
                n
            };
            assert(end == at_most(i + 9 as int, n as int));
            let mut j: usize = i + 1;
            while j < end
                invariant
                    n == ls@.len() == lv.len(),
                    lv == views(ls@),
                    i < j <= end <= n,
                    end == at_most(i + 9 as int, n as int),
                    trim(lv[i as int]) == mc@,
                    logical_device_spec(text@, display_id) == device_after(lv, mc@, i as nat),
                    candidate_from(lv, i + 1, end as int) == candidate_from(lv, j as int, end as int),
                decreases end - j,
            {
                assert(lv[j as int] == ls@[j as int]@);
                let tj = trimmed(&ls[j]);
                proof {
                    reveal_strlit("mPrimaryDisplayDevice=");
                }
                if starts_with_str(&tj, "mPrimaryDisplayDevice=") {
                    let value = copy_range(&tj, 22, tj.len());
                    assert(value@ =~= tj@.skip(22));
                    return device_value_exec(&value);
                }
                j += 1;
            }
        }
        i += 1;
    }
    None
}

/// The first line that holds `displayName="<name>"`.
pub open spec fn named_line(name: Seq<char>) -> spec_fn(Seq<char>) -> Option<Seq<char>> {
    |l: Seq<char>|
        if contains(l, "displayName=\""@ + name + "\""@) {
            Some(l)
        } else {
            None
        }
}

/// The SurfaceFlinger id of the display called `name`: the second word of the first line
/// that names it, when that word is all digits.
pub open spec fn surface_id_spec(text: Seq<char>, name: Seq<char>) -> Option<Seq<char>> {
    match first_some(lines(text), named_line(name)) {
        None => None,
        Some(l) => {
            let toks = split_ws(l);
            if toks.len() >= 2 && all_digits(toks[1]) {
                Some(toks[1])
            } else {
                None
            }
        },
    }
}

fn all_ascii_digits(s: &[char]) -> (b: bool)
    ensures
        b == all_digits(s@),
{
    let mut i: usize = 0;
    while i < s.len()
        invariant
            i <= s@.len(),
            forall|j: int| 0 <= j < i ==> crate::text::is_digit(#[trigger] s@[j]),
        decreases s@.len() - i,
    {
        if !crate::text::is_ascii_digit(s[i]) {
            assert(!crate::text::is_digit(s@[i as int]));
            return false;
        }
        i += 1;
    }
    true
}

pub fn surfaceflinger_display_id(text: &str, display_name: &str) -> (r: Option<String>)
    ensures
        opt_view(r) == surface_id_spec(text@, display_name@),
{
    let mut marker = String::from_str("displayName=\"");
    marker.append(display_name);
    marker.append("\"");
    let mc = chars_of(marker.as_str());
    let ls = lines_of(&chars_of(text));
    let ghost lv = views(ls@);
    let ghost f = named_line(display_name@);
    let mut i: usize = 0;
    while i < ls.len()
        invariant
            i <= ls@.len(),
            lv == views(ls@),
            lv == lines(text@),
            f == named_line(display_name@),
            mc@ == "displayName=\""@ + display_name@ + "\""@,
            forall|j: int| 0 <= j < i ==> f(#[trigger] lv[j]) is None,
        decreases ls@.len() - i,
    {
        assert(lv[i as int] == ls@[i as int]@);
        if crate::text::find_chars(&ls[i], &mc).is_some() {
            proof {
                crate::text::lemma_first_some_at(lv, f, i as int);
            }
            let toks = split_whitespace(&ls[i]);
            if toks.len() >= 2 {
                assert(views(toks@)[1] == toks@[1]@);
                if all_ascii_digits(&toks[1]) {
                    return Some(string_of(&toks[1]));
                }
            }
            return None;
        }
        i += 1;
    }
    proof {
        crate::text::lemma_first_some_none(lv, f);
    }
    None
}

/// Where a screenshot of a logical display is read from, once `dumpsys display` is known.
pub enum DisplayLookup {
    /// The display is a physical one with this SurfaceFlinger id.
    Found(String),
    /// The display's id has to be looked up in `dumpsys SurfaceFlinger --display-id` by its
    /// name.
    ByName(String),
}

pub enum LookupView {
    Found(Seq<char>),
    ByName(Seq<char>),
}

pub open spec fn lookup_view(r: Result<DisplayLookup, String>) -> Result<LookupView, Seq<char>> {
    match r {
        Ok(DisplayLookup::Found(v)) => Ok(LookupView::Found(v@)),
        Ok(DisplayLookup::ByName(v)) => Ok(LookupView::ByName(v@)),
        Err(e) => Err(e@),
    }
}

/// A unique id `local:<digits>` names a physical display directly; any other needs its name
/// looked up.
pub open spec fn display_lookup_spec(display_dump: Seq<char>, id: u32) -> Result<LookupView, Seq<char>> {
    match logical_device_spec(display_dump, id) {
        None => Err("Android display "@ + dec(id as nat) + " is no longer active."@),
        Some((name, uid)) => if starts_with(uid, "local:"@) && all_digits(uid.skip(6)) {
            Ok(LookupView::Found(uid.skip(6)))
        } else {
            Ok(LookupView::ByName(name))
        },
    }
}

pub fn screenshot_display_id(display_dump: &str, logical_display_id: u32) -> (r: Result<
    DisplayLookup,
    String,
>)
    ensures
        lookup_view(r) == display_lookup_spec(display_dump@, logical_display_id),
{
    match logical_display_device(display_dump, logical_display_id) {
        None => {
            let mut e = String::from_str("Android display ");
            e.append(u32_text(logical_display_id).as_str());
            e.append(" is no longer active.");
            Err(e)
        },
        Some((name, uid)) => {
            let u = chars_of(uid.as_str());
            proof {
                reveal_strlit("local:");
            }
            if starts_with_str(&u, "local:") {
                let rest = copy_range(&u, 6, u.len());
                assert(rest@ =~= uid@.skip(6));
                if all_ascii_digits(&rest) {
                    return Ok(DisplayLookup::Found(string_of(&rest)));
                }
            }
            Ok(DisplayLookup::ByName(name))
        },
    }
}

/// The SurfaceFlinger id of a display looked up by name, or why the screenshot cannot be
/// taken.
pub open spec fn surface_lookup_spec(surface_dump: Seq<char>, name: Seq<char>, id: u32) -> Result<
    Seq<char>,
    Seq<char>,
> {
    match surface_id_spec(surface_dump, name) {
        Some(v) => Ok(v),
        None => Err(
            "Android display "@ + dec(id as nat) + " ("@ + name
                + ") could not be mapped for screenshot capture. Relaunch Desktop Mode and try again."@,
        ),
    }
}

pub fn surface_display_id(surface_dump: &str, display_name: &str, logical_display_id: u32) -> (r:
    Result<String, String>)
    ensures
        result_view(r) == surface_lookup_spec(surface_dump@, display_name@, logical_display_id),
{
    match surfaceflinger_display_id(surface_dump, display_name) {
        Some(v) => Ok(v),
        None => {
            let mut e = String::from_str("Android display ");
            e.append(u32_text(logical_display_id).as_str());
            e.append(" (");
            e.append(display_name);
            e.append(") could not be mapped for screenshot capture. Relaunch Desktop Mode and try again.");
            Err(e)
        },
    }
}

// ---------------------------------------------------------------------------
// Taking the screenshot
// ---------------------------------------------------------------------------

/// The `adb` arguments that capture a PNG screenshot, of a given display if one is named.
pub open spec fn screencap_args_spec(serial: Seq<char>, display: Option<Seq<char>>) -> Seq<Seq<char>> {
    seq!["-s"@, serial, "exec-out"@, "screencap"@] + match display {
        Some(d) => seq!["-d"@, d],
        None => Seq::<Seq<char>>::empty(),
    } + seq!["-p"@]
}

pub fn screencap_args(serial: &str, display: &Option<String>) -> (r: Vec<String>)
    ensures
        strs(r@) == screencap_args_spec(serial@, opt_view(*display)),
{
    let mut v: Vec<String> = Vec::new();
    v.push(String::from_str("-s"));
    v.push(String::from_str(serial));
    v.push(String::from_str("exec-out"));
    v.push(String::from_str("screencap"));
    if let Some(d) = display {
        v.push(String::from_str("-d"));
        v.push(d.clone());
    }
    v.push(String::from_str("-p"));
    assert(strs(v@) =~= screencap_args_spec(serial@, opt_view(*display)));
    v
}

/// Whether a screenshot command gave an image: it succeeded and printed something.
pub open spec fn screencap_outcome_spec(success: bool, stderr: Seq<char>, image_empty: bool) -> Result<(), Seq<char>> {
    if !success {
        if trim(stderr).len() == 0 {
            Err("Android screenshot capture failed."@)
        } else {
            Err(trim(stderr))
        }
    } else if image_empty {
        Err("Android returned an empty screenshot."@)
    } else {
        Ok(())
    }
}

pub open spec fn unit_view(r: Result<(), String>) -> Result<(), Seq<char>> {
    match r {
        Ok(()) => Ok(()),
        Err(e) => Err(e@),
    }
}

pub fn screencap_outcome(success: bool, stderr: &str, image_empty: bool) -> (r: Result<(), String>)
    ensures
        unit_view(r) == screencap_outcome_spec(success, stderr@, image_empty),
{
    if !success {
        let detail = trimmed(&chars_of(stderr));
        if detail.len() == 0 {
            return Err(String::from_str("Android screenshot capture failed."));
        }
        return Err(string_of(&detail));
    }
    if image_empty {
        return Err(String::from_str("Android returned an empty screenshot."));
    }
    Ok(())
}

} // verus!
