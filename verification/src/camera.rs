//! The camera list that `scrcpy --list-cameras --list-camera-sizes` prints.
use vstd::prelude::*;
use crate::models::{CameraCapabilities, CameraInfo, CameraHighSpeedMode};
use crate::number::{dec, dec_chars, parse_u32, parse_u32_chars};
use crate::text::{
    lines, lines_of, index_of, index_of_char, last_index_of, last_index_of_char, lemma_index_of,
    lemma_last_index_of, lower, opt_view, split_whitespace, split_ws, starts_with,
    starts_with_str, strs, to_lower, chars_of, copy_range, find, find_str, first_some, index_of_sep, index_where, keep_nonempty,
    lemma_first_some_at, lemma_first_some_none, lemma_first_some_skip, nonempty, sep_fn, split,
    split_by, split_once, split_once_char, string_of, trim, trim_by, trim_fn, trimmed,
    trimmed_by, views, Sep, TrimSet,
};

verus! {

// ---------------------------------------------------------------------------
// Sizes
// ---------------------------------------------------------------------------

/// `WIDTHxHEIGHT` after stripping anything but digits and `x` from both ends.
pub open spec fn dims(v: Seq<char>) -> Option<(u32, u32)> {
    match split_once(trim_by(v, trim_fn(TrimSet::NotDigitOrX)), 'x') {
        Some((w, h)) => match (parse_u32(w), parse_u32(h)) {
            (Some(a), Some(b)) => Some((a, b)),
            _ => None,
        },
        None => None,
    }
}

pub fn dimensions_of(value: &[char]) -> (r: Option<(u32, u32)>)
    ensures
        r == dims(value@),
{
    let cleaned = trimmed_by(value, TrimSet::NotDigitOrX);
    match split_once_char(&cleaned, 'x') {
        Some((w, h)) => match (parse_u32_chars(&w), parse_u32_chars(&h)) {
            (Some(a), Some(b)) => Some((a, b)),
            _ => None,
        },
        None => None,
    }
}

/// The width and height of a `WIDTHxHEIGHT` text.
pub fn dimensions(value: &str) -> (r: Option<(u32, u32)>)
    ensures
        r == dims(value@),
{
    dimensions_of(&chars_of(value))
}

pub open spec fn dims_fn() -> spec_fn(Seq<char>) -> Option<(u32, u32)> {
    |p: Seq<char>| dims(p)
}

/// The first `WIDTHxHEIGHT` among the pieces between white space, `,`, brackets and
/// parentheses.
pub open spec fn first_dims(text: Seq<char>) -> Option<(u32, u32)> {
    first_some(split_by(text, sep_fn(Sep::SpaceOrBrackets)), dims_fn())
}

pub fn first_dimensions_of(text: &[char]) -> (r: Option<(u32, u32)>)
    ensures
        r == first_dims(text@),
{
    let parts = split(text, Sep::SpaceOrBrackets);
    let ghost pv = views(parts@);
    let mut i: usize = 0;
    while i < parts.len()
        invariant
            i <= parts@.len(),
            pv == views(parts@),
            pv == split_by(text@, sep_fn(Sep::SpaceOrBrackets)),
            forall|j: int| 0 <= j < i ==> (dims_fn())(#[trigger] pv[j]) is None,
        decreases parts@.len() - i,
    {
        let d = dimensions_of(&parts[i]);
        assert(pv[i as int] == parts@[i as int]@);
        if d.is_some() {
            proof {
                lemma_first_some_at(pv, dims_fn(), i as int);
            }
            return d;
        }
        i += 1;
    }
    proof {
        lemma_first_some_none(pv, dims_fn());
    }
    None
}

/// The first width and height found in a text.
pub fn first_dimensions(text: &str) -> (r: Option<(u32, u32)>)
    ensures
        r == first_dims(text@),
{
    first_dimensions_of(&chars_of(text))
}

// ---------------------------------------------------------------------------
// Bracketed lists
// ---------------------------------------------------------------------------

pub open spec fn trim_all(parts: Seq<Seq<char>>) -> Seq<Seq<char>> {
    parts.map_values(|p: Seq<char>| trim(p))
}

/// The comma-separated values after `marker`, up to the first `]` or `}`, trimmed, empty ones
/// left out.
pub open spec fn list_values_spec(text: Seq<char>, marker: Seq<char>) -> Seq<Seq<char>> {
    match find(text, marker) {
        None => Seq::<Seq<char>>::empty(),
        Some(k) => {
            let after = text.skip(k + marker.len());
            let end = match index_where(after, sep_fn(Sep::CloseBracket)) {
                Some(e) => e,
                None => after.len() as int,
            };
            nonempty(trim_all(split_by(after.take(end), sep_fn(Sep::Char(',')))))
        },
    }
}

fn trim_each(parts: &Vec<Vec<char>>) -> (r: Vec<Vec<char>>)
    ensures
        views(r@) == trim_all(views(parts@)),
{
    let mut r: Vec<Vec<char>> = Vec::new();
    let mut i: usize = 0;
    while i < parts.len()
        invariant
            i <= parts@.len(),
            views(r@) =~= trim_all(views(parts@)).take(i as int),
        decreases parts@.len() - i,
    {
        let t = trimmed(&parts[i]);
        let ghost before = views(r@);
        r.push(t);
        assert(views(r@) =~= before.push(t@));
        i += 1;
    }
    r
}

pub fn list_values_of(text: &[char], marker: &str) -> (r: Vec<Vec<char>>)
    ensures
        views(r@) == list_values_spec(text@, marker@),
{
    let m = chars_of(marker);
    match find_str(text, marker) {
        None => Vec::new(),
        Some(k) => {
            proof {
                crate::text::lemma_find_facts(text@, marker@);
            }
            assert(m@ == marker@);
            assert(k + m.len() <= text.len());
            let after = copy_range(text, k + m.len(), text.len());
            assert(after@ =~= text@.skip(k + marker@.len()));
            let end = match index_of_sep(&after, Sep::CloseBracket) {
                Some(e) => {
                    proof {
                        crate::text::lemma_index_where(after@, sep_fn(Sep::CloseBracket));
                    }
                    e
                },
                None => after.len(),
            };
            let head = copy_range(&after, 0, end);
            assert(head@ =~= after@.take(end as int));
            let parts = split(&head, Sep::Char(','));
            let ts = trim_each(&parts);
            keep_nonempty(&ts)
        },
    }
}

/// The comma-separated values after `marker`, up to the first `]` or `}`.
pub fn list_values(text: &str, marker: &str) -> (r: Vec<String>)
    ensures
        crate::text::strs(r@) == list_values_spec(text@, marker@),
{
    let v = list_values_of(&chars_of(text), marker);
    let mut r: Vec<String> = Vec::new();
    let mut i: usize = 0;
    while i < v.len()
        invariant
            i <= v@.len(),
            crate::text::strs(r@) =~= views(v@).take(i as int),
        decreases v@.len() - i,
    {
        crate::text::push_str(&mut r, string_of(&v[i]));
        i += 1;
    }
    assert(views(v@).take(v@.len() as int) =~= views(v@));
    r
}

// ---------------------------------------------------------------------------
// Frame rates
// ---------------------------------------------------------------------------

/// The numbers among the values, in order.
pub open spec fn numbers(vals: Seq<Seq<char>>) -> Seq<u32> {
    vals.filter_map(|v: Seq<char>| parse_u32(v))
}

pub open spec fn strictly_increasing(s: Seq<u32>) -> bool {
    forall|i: int, j: int| 0 <= i < j < s.len() ==> s[i] < s[j]
}

/// Position at which `x` goes into an increasing sequence.
pub open spec fn rank(r: Seq<u32>, x: u32) -> int
    decreases r.len(),
{
    if r.len() == 0 {
        0
    } else if x <= r.last() {
        rank(r.drop_last(), x)
    } else {
        r.len() as int
    }
}

/// `x` added to an increasing sequence without duplicates.
pub open spec fn insert_unique(r: Seq<u32>, x: u32) -> Seq<u32> {
    if r.contains(x) {
        r
    } else {
        r.insert(rank(r, x), x)
    }
}

/// The values sorted in increasing order with duplicates removed.
pub open spec fn sort_dedup(s: Seq<u32>) -> Seq<u32>
    decreases s.len(),
{
    if s.len() == 0 {
        s
    } else {
        insert_unique(sort_dedup(s.drop_last()), s.last())
    }
}

proof fn lemma_rank(r: Seq<u32>, x: u32)
    requires
        strictly_increasing(r),
    ensures
        0 <= rank(r, x) <= r.len(),
        forall|i: int| 0 <= i < rank(r, x) ==> r[i] < x,
        forall|i: int| rank(r, x) <= i < r.len() ==> x <= r[i],
    decreases r.len(),
{
    if r.len() > 0 {
        let t = r.drop_last();
        assert(strictly_increasing(t));
        lemma_rank(t, x);
        assert(forall|i: int| 0 <= i < t.len() ==> t[i] == r[i]);
        if x > r.last() {
            assert forall|i: int| 0 <= i < r.len() implies r[i] < x by {
                if i < r.len() - 1 {
                    assert(r[i] < r[r.len() - 1]);
                }
            }
        }
    }
}

proof fn lemma_insert_unique(r: Seq<u32>, x: u32)
    requires
        strictly_increasing(r),
    ensures
        strictly_increasing(insert_unique(r, x)),
        insert_unique(r, x).to_set() == r.to_set().insert(x),
{
    lemma_rank(r, x);
    if !r.contains(x) {
        let k = rank(r, x);
        let n = r.insert(k, x);
        assert forall|i: int, j: int| 0 <= i < j < n.len() implies n[i] < n[j] by {
            if j < k {
            } else if j == k {
            } else if i < k {
                assert(r[j - 1] != x);
            } else if i == k {
                assert(r[j - 1] != x);
            } else {
            }
        }
        assert forall|a: u32| n.contains(a) <==> r.contains(a) || a == x by {
            if n.contains(a) {
                let i = choose|i: int| 0 <= i < n.len() && n[i] == a;
                if i < k {
                    assert(r[i] == a);
                } else if i > k {
                    assert(r[i - 1] == a);
                }
            }
            if r.contains(a) {
                let i = choose|i: int| 0 <= i < r.len() && r[i] == a;
                if i < k {
                    assert(n[i] == a);
                } else {
                    assert(n[i + 1] == a);
                }
            }
            if a == x {
                assert(n[k] == x);
            }
        }
        assert(n.to_set() =~= r.to_set().insert(x));
    } else {
        assert(r.to_set() =~= r.to_set().insert(x));
    }
}

/// `sort_dedup` gives a strictly increasing sequence of the same values.
pub proof fn lemma_sort_dedup(s: Seq<u32>)
    ensures
        strictly_increasing(sort_dedup(s)),
        sort_dedup(s).to_set() == s.to_set(),
    decreases s.len(),
{
    if s.len() > 0 {
        lemma_sort_dedup(s.drop_last());
        lemma_insert_unique(sort_dedup(s.drop_last()), s.last());
        assert(s.to_set() =~= s.drop_last().to_set().insert(s.last())) by {
            assert forall|a: u32| s.contains(a) <==> s.drop_last().contains(a) || a == s.last() by {
                if s.contains(a) {
                    let i = choose|i: int| 0 <= i < s.len() && s[i] == a;
                    if i < s.len() - 1 {
                        assert(s.drop_last()[i] == a);
                    }
                }
                if s.drop_last().contains(a) {
                    let i = choose|i: int| 0 <= i < s.len() - 1 && s.drop_last()[i] == a;
                    assert(s[i] == a);
                }
            }
        }
    } else {
        assert(s.to_set() =~= Set::<u32>::empty());
        assert(sort_dedup(s).to_set() =~= Set::<u32>::empty());
    }
}

fn insert_unique_exec(r: &mut Vec<u32>, x: u32)
    ensures
        final(r)@ == insert_unique(old(r)@, x),
{
    let mut i: usize = 0;
    while i < r.len()
        invariant
            i <= r@.len(),
            forall|j: int| 0 <= j < i ==> r@[j] != x,
        decreases r@.len() - i,
    {
        if r[i] == x {
            assert(r@.contains(x));
            return;
        }
        i += 1;
    }
    assert(!r@.contains(x));
    let mut k: usize = r.len();
    assert(r@.take(k as int) =~= r@);
    while k > 0 && x <= r[k - 1]
        invariant
            k <= r@.len(),
            rank(r@, x) == rank(r@.take(k as int), x),
        decreases k,
    {
        assert(r@.take(k as int).drop_last() =~= r@.take(k - 1 as int));
        k -= 1;
    }
    proof {
        if k > 0 {
            assert(r@.take(k as int).last() == r@[k - 1]);
        }
        assert(r@.take(r@.len() as int) =~= r@);
    }
    r.insert(k, x);
}

/// Sorts ascending and removes duplicates.
pub fn sort_dedup_exec(s: &Vec<u32>) -> (r: Vec<u32>)
    ensures
        r@ == sort_dedup(s@),
        strictly_increasing(r@),
        r@.to_set() == s@.to_set(),
{
    let mut r: Vec<u32> = Vec::new();
    let mut i: usize = 0;
    while i < s.len()
        invariant
            i <= s@.len(),
            r@ == sort_dedup(s@.take(i as int)),
        decreases s@.len() - i,
    {
        assert(s@.take(i + 1 as int).drop_last() =~= s@.take(i as int));
        insert_unique_exec(&mut r, s[i]);
        i += 1;
    }
    assert(s@.take(s@.len() as int) =~= s@);
    proof {
        lemma_sort_dedup(s@);
    }
    r
}

/// The values of the `fps=[...]` list, or of `fps={...}` when the first is empty.
pub open spec fn fps_values(text: Seq<char>) -> Seq<Seq<char>> {
    let v = list_values_spec(text, "fps=["@);
    if v.len() == 0 {
        list_values_spec(text, "fps={"@)
    } else {
        v
    }
}

pub open spec fn fps_spec(text: Seq<char>) -> Seq<u32> {
    sort_dedup(numbers(fps_values(text)))
}

fn numbers_exec(vals: &Vec<Vec<char>>) -> (r: Vec<u32>)
    ensures
        r@ == numbers(views(vals@)),
{
    let ghost vv = views(vals@);
    let mut r: Vec<u32> = Vec::new();
    let mut i: usize = 0;
    while i < vals.len()
        invariant
            i <= vals@.len(),
            vv == views(vals@),
            r@ == numbers(vv.take(i as int)),
        decreases vals@.len() - i,
    {
        assert(vv.take(i + 1 as int).drop_last() =~= vv.take(i as int));
        assert(vv.take(i + 1 as int).last() == vals@[i as int]@);
        match parse_u32_chars(&vals[i]) {
            Some(x) => {
                r.push(x);
                assert(r@ =~= numbers(vv.take(i as int)) + seq![x]);
            },
            None => {},
        }
        i += 1;
    }
    assert(vv.take(vals@.len() as int) =~= vv);
    r
}

pub fn parse_fps_of(text: &[char]) -> (r: Vec<u32>)
    ensures
        r@ == fps_spec(text@),
        strictly_increasing(r@),
        r@.to_set() == numbers(fps_values(text@)).to_set(),
{
    let mut values = list_values_of(text, "fps=[");
    if values.len() == 0 {
        values = list_values_of(text, "fps={");
    }
    let nums = numbers_exec(&values);
    sort_dedup_exec(&nums)
}

/// The frame rates listed as `fps=[...]` (or `fps={...}`), increasing, without duplicates.
pub fn parse_fps(text: &str) -> (r: Vec<u32>)
    ensures
        r@ == fps_spec(text@),
        strictly_increasing(r@),
        r@.to_set() == numbers(fps_values(text@)).to_set(),
{
    parse_fps_of(&chars_of(text))
}

/// The two bounds of `zoom-range=[min, max]`, as texts.
pub open spec fn zoom_spec(text: Seq<char>) -> (Option<Seq<char>>, Option<Seq<char>>) {
    let v = list_values_spec(text, "zoom-range=["@);
    if v.len() < 2 {
        (None, None)
    } else {
        (Some(v[0]), Some(v[1]))
    }
}

pub fn parse_zoom_of(text: &[char]) -> (r: (Option<String>, Option<String>))
    ensures
        crate::text::opt_view(r.0) == zoom_spec(text@).0,
        crate::text::opt_view(r.1) == zoom_spec(text@).1,
{
    let v = list_values_of(text, "zoom-range=[");
    if v.len() < 2 {
        (None, None)
    } else {
        (Some(string_of(&v[0])), Some(string_of(&v[1])))
    }
}

// ---------------------------------------------------------------------------
// Camera headers
// ---------------------------------------------------------------------------

/// A camera as plain values.
pub struct CameraView {
    pub id: Seq<char>,
    pub facing: Seq<char>,
    pub max_width: Option<u32>,
    pub max_height: Option<u32>,
    pub fps: Seq<u32>,
    pub zoom_min: Option<Seq<char>>,
    pub zoom_max: Option<Seq<char>>,
    pub sizes: Seq<Seq<char>>,
    pub torch_likely: bool,
}

impl View for CameraInfo {
    type V = CameraView;

    open spec fn view(&self) -> CameraView {
        CameraView {
            id: self.id@,
            facing: self.facing@,
            max_width: self.max_width,
            max_height: self.max_height,
            fps: self.fps@,
            zoom_min: opt_view(self.zoom_min),
            zoom_max: opt_view(self.zoom_max),
            sizes: strs(self.sizes@),
            torch_likely: self.torch_likely,
        }
    }
}

pub open spec fn cam_views(v: Seq<CameraInfo>) -> Seq<CameraView> {
    v.map_values(|c: CameraInfo| c@)
}

pub open spec fn id_marker() -> Seq<char> {
    "--camera-id="@
}

/// The camera id after `--camera-id=`: the next word, without `,` or `)` at its ends.
pub open spec fn header_id(line: Seq<char>) -> Option<Seq<char>> {
    match find(line, id_marker()) {
        None => None,
        Some(k) => {
            let toks = split_ws(line.skip(k + id_marker().len()));
            if toks.len() == 0 {
                None
            } else {
                Some(trim_by(toks[0], trim_fn(TrimSet::CommaParen)))
            }
        },
    }
}

/// A header line names an id and has its last `)` after its first `(`, or lacks one of them.
pub open spec fn header_safe(line: Seq<char>) -> bool {
    header_id(line) is None || index_of(line, '(') is None || last_index_of(line, ')') is None
        || index_of(line, '(')->0 < last_index_of(line, ')')->0
}

/// The camera a header describes, from its id and the text between the parentheses.
pub open spec fn header_view(id: Seq<char>, d: Seq<char>) -> CameraView {
    let facing = lower(trim(split_by(d, sep_fn(Sep::Char(',')))[0]));
    CameraView {
        id: id,
        facing: facing,
        max_width: match first_dims(d) {
            Some(p) => Some(p.0),
            None => None,
        },
        max_height: match first_dims(d) {
            Some(p) => Some(p.1),
            None => None,
        },
        fps: fps_spec(d),
        zoom_min: zoom_spec(d).0,
        zoom_max: zoom_spec(d).1,
        sizes: Seq::<Seq<char>>::empty(),
        torch_likely: facing == "back"@,
    }
}

/// The camera a `--camera-id=` line describes.
pub open spec fn header(line: Seq<char>) -> Option<CameraView> {
    match header_id(line) {
        None => None,
        Some(id) => match (index_of(line, '('), last_index_of(line, ')')) {
            (Some(o), Some(c)) => Some(header_view(id, line.subrange(o + 1, c))),
            _ => None,
        },
    }
}

/// The text between a header's first `(` and its last `)`.
pub open spec fn header_details(line: Seq<char>) -> Seq<char> {
    line.subrange(index_of(line, '(')->0 + 1, last_index_of(line, ')')->0)
}

/// A camera's largest size is the first `WIDTHxHEIGHT` among the words of its header's
/// details (split at white space, `,` and brackets): its width is that word's width and its
/// height that word's height. When no word reads as a size, both are unknown.
pub proof fn lemma_header_size_is_first_size_word(line: Seq<char>, k: int)
    requires
        header(line) is Some,
        0 <= k <= split_by(header_details(line), sep_fn(Sep::SpaceOrBrackets)).len(),
        forall|j: int|
            0 <= j < k ==> dims(
                #[trigger] split_by(header_details(line), sep_fn(Sep::SpaceOrBrackets))[j],
            ) is None,
        k < split_by(header_details(line), sep_fn(Sep::SpaceOrBrackets)).len() ==> dims(
            split_by(header_details(line), sep_fn(Sep::SpaceOrBrackets))[k],
        ) is Some,
    ensures
        k < split_by(header_details(line), sep_fn(Sep::SpaceOrBrackets)).len() ==> {
            let size = dims(split_by(header_details(line), sep_fn(Sep::SpaceOrBrackets))[k]).unwrap();
            let camera = header(line).unwrap();
            &&& camera.max_width == Some(size.0)
            &&& camera.max_height == Some(size.1)
        },
        k == split_by(header_details(line), sep_fn(Sep::SpaceOrBrackets)).len() ==> header(
            line,
        )->0.max_width is None && header(line)->0.max_height is None,
{
    let toks = split_by(header_details(line), sep_fn(Sep::SpaceOrBrackets));
    if k < toks.len() {
        assert forall|j: int| 0 <= j < k implies (#[trigger] dims_fn()(toks[j])) is None by {
            assert(dims(toks[j]) is None);
        }
        lemma_first_some_at(toks, dims_fn(), k);
    } else {
        assert forall|j: int| 0 <= j < toks.len() implies (#[trigger] dims_fn()(toks[j])) is None by {
            assert(dims(toks[j]) is None);
        }
        lemma_first_some_none(toks, dims_fn());
    }
}

fn header_id_of(line: &[char]) -> (r: Option<Vec<char>>)
    ensures
        r matches Some(v) ==> header_id(line@) == Some(v@),
        r is None ==> header_id(line@) is None,
{
    let m = chars_of("--camera-id=");
    match find_str(line, "--camera-id=") {
        None => None,
        Some(k) => {
            proof {
                crate::text::lemma_find_facts(line@, id_marker());
            }
            assert(m@ == id_marker());
            assert(k + m.len() <= line.len());
            let rest = copy_range(line, k + m.len(), line.len());
            assert(rest@ =~= line@.skip(k + id_marker().len()));
            let toks = split_whitespace(&rest);
            if toks.len() == 0 {
                None
            } else {
                assert(views(toks@)[0] == toks@[0]@);
                Some(trimmed_by(&toks[0], TrimSet::CommaParen))
            }
        },
    }
}

/// Parses one `--camera-id=` header line.
pub fn parse_camera_header_of(line: &[char]) -> (r: Option<CameraInfo>)
    requires
        header_safe(line@),
    ensures
        r matches Some(c) ==> header(line@) == Some(c@) && c.high_speed_modes@.len() == 0,
        r is None ==> header(line@) is None,
{
    let id = match header_id_of(line) {
        Some(id) => id,
        None => return None,
    };
    let open = match index_of_char(line, '(') {
        Some(o) => o,
        None => return None,
    };
    let close = match last_index_of_char(line, ')') {
        Some(c) => c,
        None => return None,
    };
    proof {
        lemma_index_of(line@, '(');
        lemma_last_index_of(line@, ')');
    }
    let details = copy_range(line, open + 1, close);
    let ghost d = details@;
    let pieces = split(&details, Sep::Char(','));
    proof {
        crate::text::lemma_split_by_len(d, sep_fn(Sep::Char(',')));
    }
    assert(views(pieces@)[0] == pieces@[0]@);
    let facing = to_lower(&trimmed(&pieces[0]));
    let dims = first_dimensions_of(&details);
    let (max_width, max_height) = match dims {
        Some((w, h)) => (Some(w), Some(h)),
        None => (None, None),
    };
    let (zoom_min, zoom_max) = parse_zoom_of(&details);
    let fps = parse_fps_of(&details);
    let back = crate::text::eq_str(&facing, "back");
    let cam = CameraInfo {
        id: string_of(&id),
        facing: string_of(&facing),
        max_width: max_width,
        max_height: max_height,
        fps: fps,
        zoom_min: zoom_min,
        zoom_max: zoom_max,
        sizes: Vec::new(),
        high_speed_modes: Vec::new(),
        torch_likely: back,
    };
    assert(strs(cam.sizes@) =~= Seq::<Seq<char>>::empty());
    assert(cam@ == header_view(id@, d));
    Some(cam)
}

/// Parses one `--camera-id=` header line.
pub fn parse_camera_header(line: &str) -> (r: Option<CameraInfo>)
    requires
        header_safe(line@),
    ensures
        r matches Some(c) ==> header(line@) == Some(c@),
        r is None ==> header(line@) is None,
{
    parse_camera_header_of(&chars_of(line))
}

// ---------------------------------------------------------------------------
// The whole camera list
// ---------------------------------------------------------------------------

/// Index of the camera with an id.
pub open spec fn find_cam(cams: Seq<CameraView>, id: Seq<char>) -> Option<int>
    decreases cams.len(),
{
    if cams.len() == 0 {
        None
    } else {
        match find_cam(cams.drop_last(), id) {
            Some(k) => Some(k),
            None => if cams.last().id == id {
                Some(cams.len() - 1)
            } else {
                None
            },
        }
    }
}

proof fn lemma_find_cam(cams: Seq<CameraView>, id: Seq<char>)
    ensures
        find_cam(cams, id) matches Some(k) ==> 0 <= k < cams.len() && cams[k].id == id
            && forall|j: int| 0 <= j < k ==> cams[j].id != id,
        find_cam(cams, id) is None ==> forall|j: int| 0 <= j < cams.len() ==> cams[j].id != id,
    decreases cams.len(),
{
    if cams.len() > 0 {
        let t = cams.drop_last();
        lemma_find_cam(t, id);
        assert(forall|j: int| 0 <= j < t.len() ==> t[j] == cams[j]);
    }
}

/// A repeated header only fills in what the earlier one left unknown.
pub open spec fn merge_cam(e: CameraView, p: CameraView) -> CameraView {
    CameraView {
        facing: if e.facing == "unknown"@ {
            p.facing
        } else {
            e.facing
        },
        max_width: if e.max_width is None {
            p.max_width
        } else {
            e.max_width
        },
        max_height: if e.max_width is None {
            p.max_height
        } else {
            e.max_height
        },
        fps: if e.fps.len() == 0 {
            p.fps
        } else {
            e.fps
        },
        zoom_min: if e.zoom_min is None {
            p.zoom_min
        } else {
            e.zoom_min
        },
        zoom_max: if e.zoom_min is None {
            p.zoom_max
        } else {
            e.zoom_max
        },
        torch_likely: e.torch_likely || p.torch_likely,
        ..e
    }
}

pub open spec fn size_text(w: u32, h: u32) -> Seq<char> {
    dec(w as nat) + "x"@ + dec(h as nat)
}

/// The size a `- WIDTHxHEIGHT` line lists, if it is one.
pub open spec fn size_line(line: Seq<char>) -> Option<Seq<char>> {
    let t = trim(line);
    if starts_with(t, "- "@) && !starts_with(t, "--"@) {
        match first_dims(t) {
            Some((w, h)) => Some(size_text(w, h)),
            None => None,
        }
    } else {
        None
    }
}

/// The cameras read so far and the id of the last header.
pub type CameraScan = (Seq<CameraView>, Option<Seq<char>>);

pub open spec fn scan_step(st: CameraScan, line: Seq<char>) -> CameraScan {
    match header(line) {
        Some(p) => (
            match find_cam(st.0, p.id) {
                Some(i) => st.0.update(i, merge_cam(st.0[i], p)),
                None => st.0.push(p),
            },
            Some(p.id),
        ),
        None => match (size_line(line), st.1) {
            (Some(v), Some(id)) => match find_cam(st.0, id) {
                Some(i) => if st.0[i].sizes.contains(v) {
                    st
                } else {
                    (st.0.update(i, CameraView { sizes: st.0[i].sizes.push(v), ..st.0[i] }), st.1)
                },
                None => st,
            },
            _ => st,
        },
    }
}

pub open spec fn scan(ls: Seq<Seq<char>>) -> CameraScan
    decreases ls.len(),
{
    if ls.len() == 0 {
        (Seq::<CameraView>::empty(), None)
    } else {
        scan_step(scan(ls.drop_last()), ls.last())
    }
}

/// Pixel count of a size text (0 when it is not one).
pub open spec fn area(s: Seq<char>) -> int {
    match dims(s) {
        Some((w, h)) => w * h,
        None => 0,
    }
}

/// Where a size goes in a list sorted by decreasing area: after every size at least as large.
pub open spec fn area_pos(r: Seq<Seq<char>>, x: Seq<char>) -> int
    decreases r.len(),
{
    if r.len() == 0 || area(r[0]) < area(x) {
        0
    } else {
        1 + area_pos(r.drop_first(), x)
    }
}

/// The sizes sorted by decreasing area, equal areas in their original order.
pub open spec fn sort_by_area(s: Seq<Seq<char>>) -> Seq<Seq<char>>
    decreases s.len(),
{
    if s.len() == 0 {
        s
    } else {
        let r = sort_by_area(s.drop_last());
        r.insert(area_pos(r, s.last()), s.last())
    }
}

/// Lexicographic order of texts (`str` ordering).
pub open spec fn lex_lt(a: Seq<char>, b: Seq<char>) -> bool
    decreases a.len(),
{
    if a.len() == 0 {
        b.len() > 0
    } else if b.len() == 0 {
        false
    } else if a[0] != b[0] {
        a[0] < b[0]
    } else {
        lex_lt(a.drop_first(), b.drop_first())
    }
}

/// Camera `a` sorts after camera `b`: by number when both ids are numbers, by text otherwise.
pub open spec fn id_after(a: Seq<char>, b: Seq<char>) -> bool {
    match (parse_u32(a), parse_u32(b)) {
        (Some(x), Some(y)) => x > y,
        _ => lex_lt(b, a),
    }
}

pub open spec fn id_pos(r: Seq<CameraView>, x: CameraView) -> int
    decreases r.len(),
{
    if r.len() == 0 || id_after(r[0].id, x.id) {
        0
    } else {
        1 + id_pos(r.drop_first(), x)
    }
}

/// The cameras sorted by id, equal ids in their original order.
pub open spec fn sort_by_id(s: Seq<CameraView>) -> Seq<CameraView>
    decreases s.len(),
{
    if s.len() == 0 {
        s
    } else {
        let r = sort_by_id(s.drop_last());
        r.insert(id_pos(r, s.last()), s.last())
    }
}

/// A camera with its frame rates and sizes put in order.
pub open spec fn finish_cam(c: CameraView) -> CameraView {
    CameraView { fps: sort_dedup(c.fps), sizes: sort_by_area(c.sizes), ..c }
}

/// The cameras that `scrcpy --list-cameras --list-camera-sizes` printed.
pub open spec fn cameras_spec(raw: Seq<char>) -> Seq<CameraView> {
    sort_by_id(scan(lines(raw)).0.map_values(|c: CameraView| finish_cam(c)))
}

/// Every header line of the output can be read without a reversed `(`…`)` pair.
pub open spec fn output_safe(raw: Seq<char>) -> bool {
    forall|i: int| 0 <= i < lines(raw).len() ==> header_safe(#[trigger] lines(raw)[i])
}

fn find_cam_exec(cams: &Vec<CameraInfo>, id: &String) -> (r: Option<usize>)
    ensures
        r matches Some(k) ==> find_cam(cam_views(cams@), id@) == Some(k as int),
        r is None ==> find_cam(cam_views(cams@), id@) is None,
{
    let ghost cv = cam_views(cams@);
    let idc = chars_of(id.as_str());
    let mut i: usize = 0;
    while i < cams.len()
        invariant
            i <= cams@.len(),
            cv == cam_views(cams@),
            idc@ == id@,
            forall|j: int| 0 <= j < i ==> cv[j].id != id@,
        decreases cams@.len() - i,
    {
        let c = chars_of(cams[i].id.as_str());
        if crate::text::eq_chars(&c, &idc) {
            proof {
                lemma_find_cam(cv, id@);
                assert(cv[i as int].id == id@);
            }
            return Some(i);
        }
        i += 1;
    }
    proof {
        lemma_find_cam(cv, id@);
        if find_cam(cv, id@) is Some {
            let k = find_cam(cv, id@)->0;
            assert(cv[k].id == id@);
        }
    }
    None
}

fn merge_exec(e: CameraInfo, p: CameraInfo) -> (r: CameraInfo)
    ensures
        r@ == merge_cam(e@, p@),
        r.high_speed_modes == e.high_speed_modes,
{
    let mut e = e;
    let unknown = crate::text::str_is(&e.facing, "unknown");
    let CameraInfo { facing, max_width, max_height, fps, zoom_min, zoom_max, torch_likely, .. } = p;
    if unknown {
        e.facing = facing;
    }
    if e.max_width.is_none() {
        e.max_width = max_width;
        e.max_height = max_height;
    }
    if e.fps.len() == 0 {
        e.fps = fps;
    }
    if e.zoom_min.is_none() {
        e.zoom_min = zoom_min;
        e.zoom_max = zoom_max;
    }
    e.torch_likely = e.torch_likely || torch_likely;
    e
}

fn contains_string(v: &Vec<String>, x: &String) -> (b: bool)
    ensures
        b == strs(v@).contains(x@),
{
    let xc = chars_of(x.as_str());
    let mut i: usize = 0;
    while i < v.len()
        invariant
            i <= v@.len(),
            xc@ == x@,
            forall|j: int| 0 <= j < i ==> strs(v@)[j] != x@,
        decreases v@.len() - i,
    {
        let c = chars_of(v[i].as_str());
        if crate::text::eq_chars(&c, &xc) {
            assert(strs(v@)[i as int] == x@);
            return true;
        }
        i += 1;
    }
    false
}

fn size_line_of(line: &[char]) -> (r: Option<String>)
    ensures
        r matches Some(v) ==> size_line(line@) == Some(v@),
        r is None ==> size_line(line@) is None,
{
    let t = trimmed(line);
    if starts_with_str(&t, "- ") && !starts_with_str(&t, "--") {
        match first_dimensions_of(&t) {
            Some((w, h)) => {
                let mut v = string_of(&dec_chars(w as u64));
                v.append("x");
                v.append(string_of(&dec_chars(h as u64)).as_str());
                Some(v)
            },
            None => None,
        }
    } else {
        None
    }
}

fn add_size(cams: &mut Vec<CameraInfo>, i: usize, v: String)
    requires
        i < old(cams)@.len(),
    ensures
        cam_views(final(cams)@) == cam_views(old(cams)@).update(
            i as int,
            CameraView { sizes: old(cams)@[i as int]@.sizes.push(v@), ..old(cams)@[i as int]@ },
        ),
        final(cams)@.len() == old(cams)@.len(),
        forall|j: int|
            0 <= j < final(cams)@.len() ==> (#[trigger] final(cams)@[j]).high_speed_modes@.len()
                == old(cams)@[j].high_speed_modes@.len(),
{
    let ghost before = cams@;
    let mut c = cams.remove(i);
    let ghost old_sizes = c.sizes@;
    c.sizes.push(v);
    assert(strs(c.sizes@) =~= strs(old_sizes).push(v@));
    cams.insert(i, c);
    assert(cams@ =~= before.update(i as int, c));
    assert(cam_views(cams@) =~= cam_views(before).update(i as int, c@));
}

fn scan_line(cams: &mut Vec<CameraInfo>, current: &mut Option<String>, line: &[char])
    requires
        header_safe(line@),
        forall|j: int| 0 <= j < old(cams)@.len() ==> (#[trigger] old(cams)@[j]).high_speed_modes@.len() == 0,
    ensures
        (cam_views(final(cams)@), opt_view(*final(current))) == scan_step(
            (cam_views(old(cams)@), opt_view(*old(current))),
            line@,
        ),
        forall|j: int| 0 <= j < final(cams)@.len() ==> (#[trigger] final(cams)@[j]).high_speed_modes@.len() == 0,
{
    let ghost st = (cam_views(cams@), opt_view(*current));
    match parse_camera_header_of(line) {
        Some(parsed) => {
            let id = crate::text::copy_string(&parsed.id);
            match find_cam_exec(cams, &parsed.id) {
                Some(i) => {
                    proof {
                        lemma_find_cam(cam_views(cams@), parsed.id@);
                    }
                    let ghost before = cams@;
                    let e = cams.remove(i);
                    let m = merge_exec(e, parsed);
                    cams.insert(i, m);
                    assert(cams@ =~= before.update(i as int, m));
                    assert(cam_views(cams@) =~= cam_views(before).update(i as int, m@));
                },
                None => {
                    let ghost before = cams@;
                    cams.push(parsed);
                    assert(cam_views(cams@) =~= cam_views(before).push(parsed@));
                },
            }
            *current = Some(id);
        },
        None => {
            match size_line_of(line) {
                Some(v) => {
                    match current {
                        Some(id) => {
                            match find_cam_exec(cams, id) {
                                Some(i) => {
                                    proof {
                                        lemma_find_cam(cam_views(cams@), id@);
                                    }
                                    assert(cam_views(cams@)[i as int] == cams@[i as int]@);
                                    if !contains_string(&cams[i].sizes, &v) {
                                        add_size(cams, i, v);
                                    }
                                },
                                None => {},
                            }
                        },
                        None => {},
                    }
                },
                None => {},
            }
        },
    }
}

fn area_of(s: &String) -> (a: u64)
    ensures
        a == area(s@),
{
    match dimensions_of(&chars_of(s.as_str())) {
        Some((w, h)) => {
            assert((w as int) * (h as int) <= u64::MAX) by (nonlinear_arith)
                requires
                    w <= u32::MAX,
                    h <= u32::MAX,
            ;
            (w as u64) * (h as u64)
        },
        None => 0,
    }
}

proof fn lemma_area_pos(r: Seq<Seq<char>>, x: Seq<char>, k: int)
    requires
        0 <= k <= r.len(),
        forall|j: int| 0 <= j < k ==> area(#[trigger] r[j]) >= area(x),
    ensures
        area_pos(r, x) == k + area_pos(r.skip(k), x),
    decreases k,
{
    if k > 0 {
        assert(r.drop_first().skip(k - 1) =~= r.skip(k));
        lemma_area_pos(r.drop_first(), x, k - 1);
    } else {
        assert(r.skip(0) =~= r);
    }
}

fn sort_sizes(v: Vec<String>) -> (r: Vec<String>)
    ensures
        strs(r@) == sort_by_area(strs(v@)),
{
    let ghost sv = strs(v@);
    let mut src = v;
    let mut out: Vec<String> = Vec::new();
    let mut rev: Vec<String> = Vec::new();
    while src.len() > 0
        invariant
            sv == strs(src@) + strs(rev@).reverse(),
        decreases src@.len(),
    {
        let x = src.pop().unwrap();
        let ghost b = strs(rev@);
        rev.push(x);
        assert(strs(rev@) =~= b.push(x@));
        assert(strs(rev@).reverse() =~= seq![x@] + b.reverse());
    }
    assert(strs(src@) =~= Seq::<Seq<char>>::empty());
    let n = rev.len();
    let mut i: usize = 0;
    while rev.len() > 0
        invariant
            i + rev@.len() == n == sv.len(),
            sv =~= sv.take(i as int) + strs(rev@).reverse(),
            strs(out@) == sort_by_area(sv.take(i as int)),
        decreases rev@.len(),
    {
        let x = rev.pop().unwrap();
        let ghost xs = x@;
        proof {
            assert(sv[i as int] == xs) by {
                assert((sv.take(i as int) + strs(rev@).push(xs).reverse())[i as int] == xs);
            }
            assert(sv.take(i + 1 as int).drop_last() =~= sv.take(i as int));
            assert(sv.take(i + 1 as int).last() == xs);
        }
        let ax = area_of(&x);
        let ghost r0 = strs(out@);
        let mut k: usize = 0;
        while k < out.len() && area_of(&out[k]) >= ax
            invariant
                k <= out@.len(),
                r0 == strs(out@),
                ax == area(xs),
                forall|j: int| 0 <= j < k ==> area(#[trigger] r0[j]) >= area(xs),
            decreases out@.len() - k,
        {
            assert(r0[k as int] == out@[k as int]@);
            k += 1;
        }
        proof {
            lemma_area_pos(r0, xs, k as int);
            if k < out@.len() {
                assert(r0.skip(k as int)[0] == r0[k as int]);
                assert(r0[k as int] == out@[k as int]@);
            }
        }
        let ghost before = out@;
        out.insert(k, x);
        assert(strs(out@) =~= r0.insert(k as int, xs));
        i += 1;
        assert(sv =~= sv.take(i as int) + strs(rev@).reverse());
    }
    assert(sv.take(n as int) =~= sv);
    out
}

proof fn lemma_id_pos(r: Seq<CameraView>, x: CameraView, k: int)
    requires
        0 <= k <= r.len(),
        forall|j: int| 0 <= j < k ==> !id_after(#[trigger] r[j].id, x.id),
    ensures
        id_pos(r, x) == k + id_pos(r.skip(k), x),
    decreases k,
{
    if k > 0 {
        assert(r.drop_first().skip(k - 1) =~= r.skip(k));
        lemma_id_pos(r.drop_first(), x, k - 1);
    } else {
        assert(r.skip(0) =~= r);
    }
}

fn lex_less(a: &[char], b: &[char]) -> (r: bool)
    ensures
        r == lex_lt(a@, b@),
{
    let mut i: usize = 0;
    assert(a@.skip(0) =~= a@);
    assert(b@.skip(0) =~= b@);
    while i < a.len() && i < b.len() && a[i] == b[i]
        invariant
            i <= a@.len(),
            i <= b@.len(),
            lex_lt(a@, b@) == lex_lt(a@.skip(i as int), b@.skip(i as int)),
        decreases a@.len() - i,
    {
        assert(a@.skip(i as int).drop_first() =~= a@.skip(i + 1 as int));
        assert(b@.skip(i as int).drop_first() =~= b@.skip(i + 1 as int));
        i += 1;
    }
    assert(a@.skip(0) =~= a@);
    assert(b@.skip(0) =~= b@);
    if i == a.len() {
        i < b.len()
    } else if i == b.len() {
        false
    } else {
        assert(a@.skip(i as int)[0] == a@[i as int]);
        assert(b@.skip(i as int)[0] == b@[i as int]);
        a[i] < b[i]
    }
}

fn id_after_exec(a: &String, b: &String) -> (r: bool)
    ensures
        r == id_after(a@, b@),
{
    let ac = chars_of(a.as_str());
    let bc = chars_of(b.as_str());
    match (parse_u32_chars(&ac), parse_u32_chars(&bc)) {
        (Some(x), Some(y)) => x > y,
        _ => lex_less(&bc, &ac),
    }
}

fn sort_cameras(v: Vec<CameraInfo>) -> (r: Vec<CameraInfo>)
    requires
        forall|j: int| 0 <= j < v@.len() ==> (#[trigger] v@[j]).high_speed_modes@.len() == 0,
    ensures
        cam_views(r@) == sort_by_id(cam_views(v@)),
        forall|j: int| 0 <= j < r@.len() ==> (#[trigger] r@[j]).high_speed_modes@.len() == 0,
{
    let ghost sv = cam_views(v@);
    let mut src = v;
    let mut out: Vec<CameraInfo> = Vec::new();
    let mut rev: Vec<CameraInfo> = Vec::new();
    while src.len() > 0
        invariant
            sv == cam_views(src@) + cam_views(rev@).reverse(),
            forall|j: int| 0 <= j < src@.len() ==> (#[trigger] src@[j]).high_speed_modes@.len() == 0,
            forall|j: int| 0 <= j < rev@.len() ==> (#[trigger] rev@[j]).high_speed_modes@.len() == 0,
        decreases src@.len(),
    {
        let x = src.pop().unwrap();
        let ghost b = cam_views(rev@);
        rev.push(x);
        assert(cam_views(rev@) =~= b.push(x@));
        assert(cam_views(rev@).reverse() =~= seq![x@] + b.reverse());
    }
    assert(cam_views(src@) =~= Seq::<CameraView>::empty());
    let n = rev.len();
    let mut i: usize = 0;
    while rev.len() > 0
        invariant
            i + rev@.len() == n == sv.len(),
            sv =~= sv.take(i as int) + cam_views(rev@).reverse(),
            cam_views(out@) == sort_by_id(sv.take(i as int)),
            forall|j: int| 0 <= j < rev@.len() ==> (#[trigger] rev@[j]).high_speed_modes@.len() == 0,
            forall|j: int| 0 <= j < out@.len() ==> (#[trigger] out@[j]).high_speed_modes@.len() == 0,
        decreases rev@.len(),
    {
        let x = rev.pop().unwrap();
        let ghost xs = x@;
        proof {
            assert(sv[i as int] == xs) by {
                assert((sv.take(i as int) + cam_views(rev@).push(xs).reverse())[i as int] == xs);
            }
            assert(sv.take(i + 1 as int).drop_last() =~= sv.take(i as int));
            assert(sv.take(i + 1 as int).last() == xs);
        }
        let ghost r0 = cam_views(out@);
        let mut k: usize = 0;
        while k < out.len() && !id_after_exec(&out[k].id, &x.id)
            invariant
                k <= out@.len(),
                r0 == cam_views(out@),
                xs == x@,
                forall|j: int| 0 <= j < k ==> !id_after(#[trigger] r0[j].id, xs.id),
            decreases out@.len() - k,
        {
            assert(r0[k as int] == out@[k as int]@);
            k += 1;
        }
        proof {
            lemma_id_pos(r0, xs, k as int);
            if k < out@.len() {
                assert(r0.skip(k as int)[0] == r0[k as int]);
                assert(r0[k as int] == out@[k as int]@);
            }
        }
        out.insert(k, x);
        assert(cam_views(out@) =~= r0.insert(k as int, xs));
        i += 1;
        assert(sv =~= sv.take(i as int) + cam_views(rev@).reverse());
    }
    assert(sv.take(n as int) =~= sv);
    out
}

fn finish_exec(c: CameraInfo) -> (r: CameraInfo)
    ensures
        r@ == finish_cam(c@),
        r.high_speed_modes == c.high_speed_modes,
{
    let mut c = c;
    let fps = sort_dedup_exec(&c.fps);
    c.fps = fps;
    let mut sizes: Vec<String> = Vec::new();
    core::mem::swap(&mut sizes, &mut c.sizes);
    c.sizes = sort_sizes(sizes);
    c
}

/// Reads the cameras, their frame rates and sizes from scrcpy's camera listing.
pub fn parse_camera_output_of(raw: &[char]) -> (r: Vec<CameraInfo>)
    requires
        output_safe(raw@),
    ensures
        cam_views(r@) == cameras_spec(raw@),
        forall|j: int| 0 <= j < r@.len() ==> (#[trigger] r@[j]).high_speed_modes@.len() == 0,
{
    let ls = lines_of(raw);
    let ghost lv = views(ls@);
    let mut cams: Vec<CameraInfo> = Vec::new();
    let mut current: Option<String> = None;
    let mut i: usize = 0;
    while i < ls.len()
        invariant
            i <= ls@.len(),
            lv == views(ls@),
            lv == lines(raw@),
            output_safe(raw@),
            (cam_views(cams@), opt_view(current)) == scan(lv.take(i as int)),
            forall|j: int| 0 <= j < cams@.len() ==> (#[trigger] cams@[j]).high_speed_modes@.len() == 0,
        decreases ls@.len() - i,
    {
        assert(lv.take(i + 1 as int).drop_last() =~= lv.take(i as int));
        assert(lv.take(i + 1 as int).last() == ls@[i as int]@);
        assert(header_safe(lines(raw@)[i as int]));
        scan_line(&mut cams, &mut current, &ls[i]);
        i += 1;
    }
    assert(lv.take(ls@.len() as int) =~= lv);
    let ghost scanned = cam_views(cams@);
    let mut finished: Vec<CameraInfo> = Vec::new();
    let mut rest = cams;
    let mut rev: Vec<CameraInfo> = Vec::new();
    while rest.len() > 0
        invariant
            scanned == cam_views(rest@) + cam_views(rev@).reverse(),
            forall|j: int| 0 <= j < rest@.len() ==> (#[trigger] rest@[j]).high_speed_modes@.len() == 0,
            forall|j: int| 0 <= j < rev@.len() ==> (#[trigger] rev@[j]).high_speed_modes@.len() == 0,
        decreases rest@.len(),
    {
        let x = rest.pop().unwrap();
        let ghost b = cam_views(rev@);
        rev.push(x);
        assert(cam_views(rev@) =~= b.push(x@));
        assert(cam_views(rev@).reverse() =~= seq![x@] + b.reverse());
    }
    assert(cam_views(rest@) =~= Seq::<CameraView>::empty());
    let n = rev.len();
    let mut k: usize = 0;
    while rev.len() > 0
        invariant
            k + rev@.len() == n == scanned.len(),
            scanned =~= scanned.take(k as int) + cam_views(rev@).reverse(),
            cam_views(finished@) =~= scanned.take(k as int).map_values(|c: CameraView| finish_cam(c)),
            forall|j: int| 0 <= j < rev@.len() ==> (#[trigger] rev@[j]).high_speed_modes@.len() == 0,
            forall|j: int| 0 <= j < finished@.len() ==> (#[trigger] finished@[j]).high_speed_modes@.len() == 0,
        decreases rev@.len(),
    {
        let x = rev.pop().unwrap();
        let ghost xs = x@;
        proof {
            assert(scanned[k as int] == xs) by {
                assert((scanned.take(k as int) + cam_views(rev@).push(xs).reverse())[k as int] == xs);
            }
        }
        let f = finish_exec(x);
        let ghost before = cam_views(finished@);
        finished.push(f);
        assert(cam_views(finished@) =~= before.push(f@));
        k += 1;
        assert(scanned =~= scanned.take(k as int) + cam_views(rev@).reverse());
    }
    assert(scanned.take(n as int) =~= scanned);
    sort_cameras(finished)
}

/// Reads the cameras, their frame rates and sizes from scrcpy's camera listing.
pub fn parse_camera_output(raw: &str) -> (r: Vec<CameraInfo>)
    requires
        output_safe(raw@),
    ensures
        cam_views(r@) == cameras_spec(raw@),
        forall|j: int| 0 <= j < r@.len() ==> (#[trigger] r@[j]).high_speed_modes@.len() == 0,
{
    parse_camera_output_of(&chars_of(raw))
}

// ---------------------------------------------------------------------------
// Probing a phone's cameras
// ---------------------------------------------------------------------------

fn header_readable(line: &[char]) -> (b: bool)
    ensures
        b == header_safe(line@),
{
    if header_id_of(line).is_none() {
        return true;
    }
    let open = match index_of_char(line, '(') {
        Some(o) => o,
        None => return true,
    };
    let close = match last_index_of_char(line, ')') {
        Some(c) => c,
        None => return true,
    };
    open < close
}

/// Whether every header line of a camera listing can be read (see `header_safe`).
pub fn camera_output_readable(raw: &str) -> (b: bool)
    ensures
        b == output_safe(raw@),
{
    let ls = lines_of(&chars_of(raw));
    let ghost lv = views(ls@);
    let mut i: usize = 0;
    while i < ls.len()
        invariant
            i <= ls@.len(),
            lv == views(ls@),
            lv == lines(raw@),
            forall|j: int| 0 <= j < i ==> header_safe(#[trigger] lv[j]),
        decreases ls@.len() - i,
    {
        assert(lv[i as int] == ls@[i as int]@);
        if !header_readable(&ls[i]) {
            return false;
        }
        i += 1;
    }
    true
}

pub open spec fn result_view(r: Result<String, String>) -> Result<Seq<char>, Seq<char>> {
    match r {
        Ok(v) => Ok(v@),
        Err(e) => Err(e@),
    }
}

/// What the camera listing command produced: its trimmed output and error output on two
/// lines, trimmed; an error when it failed, naming its exit status when it printed nothing.
pub open spec fn command_output_spec(stdout: Seq<char>, stderr: Seq<char>, success: bool, status: Seq<char>) -> Result<
    Seq<char>,
    Seq<char>,
> {
    let text = trim(trim(stdout) + "\n"@ + trim(stderr));
    if success {
        Ok(text)
    } else if text.len() == 0 {
        Err("Camera probe failed with "@ + status)
    } else {
        Err(text)
    }
}

pub fn command_output(stdout: &str, stderr: &str, success: bool, status: &str) -> (r: Result<String, String>)
    ensures
        result_view(r) == command_output_spec(stdout@, stderr@, success, status@),
{
    let mut all = string_of(&trimmed(&chars_of(stdout)));
    all.append("\n");
    all.append(string_of(&trimmed(&chars_of(stderr))).as_str());
    let text = trimmed(&chars_of(all.as_str()));
    if success {
        Ok(string_of(&text))
    } else if text.len() == 0 {
        let mut e = String::from_str("Camera probe failed with ");
        e.append(status);
        Err(e)
    } else {
        Err(string_of(&text))
    }
}

pub open spec fn unit_view(r: Result<(), String>) -> Result<(), Seq<char>> {
    match r {
        Ok(()) => Ok(()),
        Err(e) => Err(e@),
    }
}

/// Cameras are probed only on a listed, authorized phone.
pub open spec fn camera_device_spec(ds: Seq<crate::models::DeviceView>, serial: Seq<char>) -> Result<(), Seq<char>> {
    match crate::devices::device_index(ds, serial) {
        None => Err("Selected device is no longer connected."@),
        Some(k) => if ds[k].state != "device"@ {
            Err("Authorize the device before probing its cameras."@)
        } else {
            Ok(())
        },
    }
}

pub fn camera_device_check(devices: &Vec<crate::models::DeviceInfo>, serial: &str) -> (r: Result<(), String>)
    ensures
        unit_view(r) == camera_device_spec(crate::models::device_views(devices@), serial@),
{
    let ghost dv = crate::models::device_views(devices@);
    match crate::devices::find_device(devices, serial) {
        None => Err(String::from_str("Selected device is no longer connected.")),
        Some(k) => {
            assert(dv[k as int] == devices@[k as int]@);
            if !crate::text::str_is(&devices[k].state, "device") {
                Err(String::from_str("Authorize the device before probing its cameras."))
            } else {
                Ok(())
            }
        },
    }
}

/// The camera to start with: the first back camera, else the first camera.
pub open spec fn recommended_spec(cams: Seq<CameraView>) -> Option<Seq<char>> {
    match first_some(cams, |c: CameraView| if c.facing == "back"@ { Some(c.id) } else { None }) {
        Some(id) => Some(id),
        None => if cams.len() > 0 {
            Some(cams[0].id)
        } else {
            None
        },
    }
}

pub open spec fn camera_note() -> Seq<char> {
    "Camera capabilities are reported by Android. SCRCPY Studio uses conservative defaults and automatically retries safer settings if a declared combination fails."@
}

/// The capabilities reported for the cameras a phone listed.
pub fn camera_capabilities(cameras: Vec<CameraInfo>) -> (r: CameraCapabilities)
    ensures
        r.camera_supported == (cameras@.len() > 0),
        opt_view(r.recommended_camera_id) == recommended_spec(cam_views(cameras@)),
        r.cameras@ == cameras@,
        r.note@ == camera_note(),
{
    let ghost cv = cam_views(cameras@);
    let ghost f = |c: CameraView| if c.facing == "back"@ { Some(c.id) } else { None };
    let mut rec: Option<String> = None;
    let mut i: usize = 0;
    while i < cameras.len() && rec.is_none()
        invariant
            i <= cameras@.len(),
            cv == cam_views(cameras@),
            f == (|c: CameraView| if c.facing == "back"@ { Some(c.id) } else { None }),
            rec is None ==> forall|j: int| 0 <= j < i ==> f(#[trigger] cv[j]) is None,
            rec matches Some(r) ==> first_some(cv, f) == Some(r@),
        decreases cameras@.len() - i + (if rec is None {
            1int
        } else {
            0int
        }),
    {
        assert(cv[i as int] == cameras@[i as int]@);
        if crate::text::str_is(&cameras[i].facing, "back") {
            proof {
                lemma_first_some_at(cv, f, i as int);
            }
            rec = Some(cameras[i].id.clone());
        } else {
            i += 1;
        }
    }
    if rec.is_none() {
        proof {
            lemma_first_some_none(cv, f);
        }
        if cameras.len() > 0 {
            assert(cv[0] == cameras@[0]@);
            rec = Some(cameras[0].id.clone());
        }
    }
    CameraCapabilities {
        camera_supported: cameras.len() > 0,
        recommended_camera_id: rec,
        cameras: cameras,
        note: String::from_str(
            "Camera capabilities are reported by Android. SCRCPY Studio uses conservative defaults and automatically retries safer settings if a declared combination fails.",
        ),
    }
}

/// The capabilities of a phone's cameras from what the camera listing command printed.
pub fn list_camera_capabilities(raw: &str) -> (r: CameraCapabilities)
    requires
        output_safe(raw@),
    ensures
        r.camera_supported == (cameras_spec(raw@).len() > 0),
        opt_view(r.recommended_camera_id) == recommended_spec(cameras_spec(raw@)),
        cam_views(r.cameras@) == cameras_spec(raw@),
        forall|j: int|
            0 <= j < r.cameras@.len() ==> (#[trigger] r.cameras@[j]).high_speed_modes@.len() == 0,
        r.note@ == camera_note(),
{
    let cameras = parse_camera_output(raw);
    camera_capabilities(cameras)
}

// ---------------------------------------------------------------------------
// What the size order guarantees
// ---------------------------------------------------------------------------

proof fn lemma_area_pos_bounds(r: Seq<Seq<char>>, x: Seq<char>)
    ensures
        0 <= area_pos(r, x) <= r.len(),
        forall|j: int| 0 <= j < area_pos(r, x) ==> area(#[trigger] r[j]) >= area(x),
        area_pos(r, x) < r.len() ==> area(r[area_pos(r, x)]) < area(x),
    decreases r.len(),
{
    if r.len() > 0 && area(r[0]) >= area(x) {
        lemma_area_pos_bounds(r.drop_first(), x);
        assert forall|j: int| 0 <= j < area_pos(r, x) implies area(#[trigger] r[j]) >= area(x) by {
            if j > 0 {
                assert(r[j] == r.drop_first()[j - 1]);
            }
        }
    }
}

/// The sizes of a camera are listed largest first, and none is added or lost.
pub proof fn lemma_sizes_largest_first(s: Seq<Seq<char>>)
    ensures
        sort_by_area(s).len() == s.len(),
        forall|i: int, j: int|
            0 <= i < j < s.len() ==> area(#[trigger] sort_by_area(s)[i]) >= area(
                #[trigger] sort_by_area(s)[j],
            ),
        sort_by_area(s).to_multiset() == s.to_multiset(),
    decreases s.len(),
{
    broadcast use vstd::seq_lib::to_multiset_insert, vstd::seq_lib::to_multiset_build;

    if s.len() > 0 {
        let r = sort_by_area(s.drop_last());
        let x = s.last();
        lemma_sizes_largest_first(s.drop_last());
        lemma_area_pos_bounds(r, x);
        let p = area_pos(r, x);
        let t = r.insert(p, x);
        assert(t == sort_by_area(s));
        assert forall|i: int, j: int| 0 <= i < j < s.len() implies area(#[trigger] t[i]) >= area(
            #[trigger] t[j],
        ) by {
            if i < p && j < p {
                assert(t[i] == r[i] && t[j] == r[j]);
            } else if i < p && j == p {
                assert(t[i] == r[i]);
            } else if i < p {
                assert(t[i] == r[i] && t[j] == r[j - 1]);
            } else if i == p {
                assert(t[j] == r[j - 1]);
                if j - 1 > p {
                    assert(area(r[p]) >= area(r[j - 1]));
                }
            } else {
                assert(t[i] == r[i - 1] && t[j] == r[j - 1]);
            }
        }
        assert(s.drop_last().push(x) =~= s);
    }
}

} // verus!
