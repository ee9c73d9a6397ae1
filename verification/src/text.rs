//! Character-level text primitives with exact specifications.
//!
//! Every function here works on sequences of Unicode scalar values and
//! states its result with a spec function over `Seq<char>`.
use vstd::prelude::*;

verus! {

broadcast use vstd::string::group_string_axioms;

// ---------------------------------------------------------------------------
// Character classes
// ---------------------------------------------------------------------------

/// Unicode `White_Space`, the class that `char::is_whitespace` tests.
pub open spec fn is_ws(c: char) -> bool {
    ('\u{9}' <= c && c <= '\u{d}') || c == ' ' || c == '\u{85}' || c == '\u{a0}'
        || c == '\u{1680}' || ('\u{2000}' <= c && c <= '\u{200a}') || c == '\u{2028}'
        || c == '\u{2029}' || c == '\u{202f}' || c == '\u{205f}' || c == '\u{3000}'
}

pub fn is_whitespace(c: char) -> (b: bool)
    ensures
        b == is_ws(c),
{
    ('\u{9}' <= c && c <= '\u{d}') || c == ' ' || c == '\u{85}' || c == '\u{a0}'
        || c == '\u{1680}' || ('\u{2000}' <= c && c <= '\u{200a}') || c == '\u{2028}'
        || c == '\u{2029}' || c == '\u{202f}' || c == '\u{205f}' || c == '\u{3000}'
}

pub open spec fn is_digit(c: char) -> bool {
    '0' <= c && c <= '9'
}

pub fn is_ascii_digit(c: char) -> (b: bool)
    ensures
        b == is_digit(c),
{
    '0' <= c && c <= '9'
}

pub open spec fn is_alnum(c: char) -> bool {
    is_digit(c) || ('a' <= c && c <= 'z') || ('A' <= c && c <= 'Z')
}

pub fn is_ascii_alphanumeric(c: char) -> (b: bool)
    ensures
        b == is_alnum(c),
{
    ('0' <= c && c <= '9') || ('a' <= c && c <= 'z') || ('A' <= c && c <= 'Z')
}

/// ASCII lower-casing of one character, as `char::to_ascii_lowercase`.
pub open spec fn lower_char(c: char) -> char {
    if 'A' <= c && c <= 'Z' {
        ((c as u32) + 32) as char
    } else {
        c
    }
}

pub open spec fn lower(s: Seq<char>) -> Seq<char> {
    s.map_values(|c: char| lower_char(c))
}

pub fn to_lower_char(c: char) -> (r: char)
    ensures
        r == lower_char(c),
{
    if 'A' <= c && c <= 'Z' {
        ((c as u8) + 32) as char
    } else {
        c
    }
}

/// ASCII lower-casing of a whole text, as `str::to_ascii_lowercase`.
pub fn to_lower(s: &[char]) -> (r: Vec<char>)
    ensures
        r@ == lower(s@),
{
    let mut r: Vec<char> = Vec::new();
    let mut i: usize = 0;
    while i < s.len()
        invariant
            i <= s@.len(),
            r@ == lower(s@.take(i as int)),
        decreases s@.len() - i,
    {
        r.push(to_lower_char(s[i]));
        i += 1;
        assert(lower(s@.take(i as int)) =~= lower(s@.take(i - 1 as int)).push(lower_char(s@[i - 1])));
    }
    assert(s@.take(s@.len() as int) =~= s@);
    r
}

// ---------------------------------------------------------------------------
// Conversions between strings and character vectors
// ---------------------------------------------------------------------------

/// The characters of a string slice, in order.
pub fn chars_of(s: &str) -> (v: Vec<char>)
    ensures
        v@ == s@,
{
    let mut v: Vec<char> = Vec::new();
    for c in it: s.chars()
        invariant
            v@ == it.seq().take(it.index() as int),
    {
        v.push(c);
    }
    v
}

/// Appends one character to a string (`String::push`).
#[verifier::external_body]
fn push_char(s: &mut String, c: char)
    ensures
        final(s)@ == old(s)@.push(c),
{
    s.push(c);
}

/// Builds a string holding exactly the given characters.
pub fn string_of(v: &[char]) -> (s: String)
    ensures
        s@ == v@,
{
    let mut s = String::new();
    let mut i: usize = 0;
    while i < v.len()
        invariant
            i <= v@.len(),
            s@ == v@.take(i as int),
        decreases v@.len() - i,
    {
        push_char(&mut s, v[i]);
        i += 1;
        assert(v@.take(i as int) =~= v@.take(i - 1 as int).push(v@[i - 1 as int]));
    }
    assert(v@.take(v@.len() as int) =~= v@);
    s
}

/// Concatenation of a literal prefix and a text.
pub fn concat2(a: &str, b: &[char]) -> (s: String)
    ensures
        s@ == a@ + b@,
{
    let mut s = String::from_str(a);
    let tail = string_of(b);
    s.append(tail.as_str());
    s
}

/// Copies `s[from..to]` into a new vector.
pub fn copy_range(s: &[char], from: usize, to: usize) -> (r: Vec<char>)
    requires
        from <= to <= s@.len(),
    ensures
        r@ == s@.subrange(from as int, to as int),
{
    let mut r: Vec<char> = Vec::new();
    let mut i: usize = from;
    while i < to
        invariant
            from <= i <= to <= s@.len(),
            r@ == s@.subrange(from as int, i as int),
        decreases to - i,
    {
        r.push(s[i]);
        i += 1;
        assert(s@.subrange(from as int, i as int) =~= s@.subrange(from as int, i - 1 as int).push(
            s@[i - 1 as int],
        ));
    }
    r
}

/// Character-wise equality of two texts.
pub fn eq_chars(a: &[char], b: &[char]) -> (r: bool)
    ensures
        r == (a@ == b@),
{
    if a.len() != b.len() {
        return false;
    }
    let mut i: usize = 0;
    while i < a.len()
        invariant
            a@.len() == b@.len(),
            i <= a@.len(),
            forall|j: int| 0 <= j < i ==> a@[j] == b@[j],
        decreases a@.len() - i,
    {
        if a[i] != b[i] {
            return false;
        }
        i += 1;
    }
    assert(a@ =~= b@);
    true
}

/// Equality of a text with a string slice.
pub fn eq_str(a: &[char], b: &str) -> (r: bool)
    ensures
        r == (a@ == b@),
{
    let bv = chars_of(b);
    eq_chars(a, &bv)
}

// ---------------------------------------------------------------------------
// Trimming
// ---------------------------------------------------------------------------

pub open spec fn trim_start_by(s: Seq<char>, p: spec_fn(char) -> bool) -> Seq<char>
    decreases s.len(),
{
    if s.len() > 0 && p(s[0]) {
        trim_start_by(s.drop_first(), p)
    } else {
        s
    }
}

pub open spec fn trim_end_by(s: Seq<char>, p: spec_fn(char) -> bool) -> Seq<char>
    decreases s.len(),
{
    if s.len() > 0 && p(s.last()) {
        trim_end_by(s.drop_last(), p)
    } else {
        s
    }
}

/// `str::trim_matches` with a character predicate.
pub open spec fn trim_by(s: Seq<char>, p: spec_fn(char) -> bool) -> Seq<char> {
    trim_end_by(trim_start_by(s, p), p)
}

/// Which characters a trim removes.
pub enum TrimSet {
    /// White space (`str::trim`).
    Space,
    /// Anything that is neither an ASCII digit nor `x`.
    NotDigitOrX,
    /// `,` and `)`.
    CommaParen,
    /// Brackets, braces, parentheses, `,` and `;`.
    Brackets,
}

pub open spec fn trim_holds(t: TrimSet, c: char) -> bool {
    match t {
        TrimSet::Space => is_ws(c),
        TrimSet::NotDigitOrX => !is_digit(c) && c != 'x',
        TrimSet::CommaParen => c == ',' || c == ')',
        TrimSet::Brackets => c == '{' || c == '}' || c == '[' || c == ']' || c == '(' || c == ')'
            || c == ',' || c == ';',
    }
}

pub open spec fn trim_fn(t: TrimSet) -> spec_fn(char) -> bool {
    |c: char| trim_holds(t, c)
}

fn trims(t: &TrimSet, c: char) -> (b: bool)
    ensures
        b == trim_holds(*t, c),
{
    match t {
        TrimSet::Space => is_whitespace(c),
        TrimSet::NotDigitOrX => !is_ascii_digit(c) && c != 'x',
        TrimSet::CommaParen => c == ',' || c == ')',
        TrimSet::Brackets => c == '{' || c == '}' || c == '[' || c == ']' || c == '(' || c == ')'
            || c == ',' || c == ';',
    }
}

/// `str::trim`: both ends stripped of white space.
pub open spec fn trim(s: Seq<char>) -> Seq<char> {
    trim_by(s, trim_fn(TrimSet::Space))
}

proof fn lemma_trim_start_skip(s: Seq<char>, p: spec_fn(char) -> bool, i: int)
    requires
        0 <= i <= s.len(),
        forall|j: int| 0 <= j < i ==> p(#[trigger] s[j]),
    ensures
        trim_start_by(s, p) == trim_start_by(s.skip(i), p),
    decreases i,
{
    if i > 0 {
        assert(p(s[0]));
        assert(s.drop_first().skip(i - 1) =~= s.skip(i));
        lemma_trim_start_skip(s.drop_first(), p, i - 1);
    } else {
        assert(s.skip(0) =~= s);
    }
}

proof fn lemma_trim_end_take(s: Seq<char>, p: spec_fn(char) -> bool, i: int)
    requires
        0 <= i <= s.len(),
        forall|j: int| i <= j < s.len() ==> p(#[trigger] s[j]),
    ensures
        trim_end_by(s, p) == trim_end_by(s.take(i), p),
    decreases s.len() - i,
{
    if i < s.len() {
        assert(p(s.last()));
        assert(s.drop_last().take(i) =~= s.take(i));
        lemma_trim_end_take(s.drop_last(), p, i);
    } else {
        assert(s.take(i) =~= s);
    }
}

/// Bounds `(a, b)` with `s[a..b] == trim_by(s, t)`.
pub fn trim_bounds_by(s: &[char], t: TrimSet) -> (r: (usize, usize))
    ensures
        r.0 <= r.1 <= s@.len(),
        s@.subrange(r.0 as int, r.1 as int) == trim_by(s@, trim_fn(t)),
{
    let ghost p = trim_fn(t);
    let mut a: usize = 0;
    while a < s.len() && trims(&t, s[a])
        invariant
            a <= s@.len(),
            p == trim_fn(t),
            forall|j: int| 0 <= j < a ==> p(#[trigger] s@[j]),
        decreases s@.len() - a,
    {
        a += 1;
    }
    proof {
        lemma_trim_start_skip(s@, p, a as int);
        if a < s@.len() {
            assert(!p(s@.skip(a as int)[0]));
        }
        assert(trim_start_by(s@.skip(a as int), p) == s@.skip(a as int));
    }
    let mut b: usize = s.len();
    while b > a && trims(&t, s[b - 1])
        invariant
            a <= b <= s@.len(),
            p == trim_fn(t),
            forall|j: int| b <= j < s@.len() ==> p(#[trigger] s@[j]),
        decreases b,
    {
        b -= 1;
    }
    proof {
        let u = s@.skip(a as int);
        let k = b - a;
        assert forall|j: int| k <= j < u.len() implies p(#[trigger] u[j]) by {
            assert(u[j] == s@[j + a]);
        }
        lemma_trim_end_take(u, p, k as int);
        if k > 0 {
            assert(u.take(k as int).last() == s@[b - 1]);
        }
        assert(trim_end_by(u.take(k as int), p) == u.take(k as int));
        assert(u.take(k as int) =~= s@.subrange(a as int, b as int));
    }
    (a, b)
}

/// `str::trim_matches` for one of the trim sets.
pub fn trimmed_by(s: &[char], t: TrimSet) -> (r: Vec<char>)
    ensures
        r@ == trim_by(s@, trim_fn(t)),
{
    let (a, b) = trim_bounds_by(s, t);
    copy_range(s, a, b)
}

/// `str::trim`.
pub fn trimmed(s: &[char]) -> (r: Vec<char>)
    ensures
        r@ == trim(s@),
{
    trimmed_by(s, TrimSet::Space)
}

// ---------------------------------------------------------------------------
// Splitting
// ---------------------------------------------------------------------------

/// `str::split` with a character predicate: `n` separators give `n + 1` pieces.
pub open spec fn split_by(s: Seq<char>, sep: spec_fn(char) -> bool) -> Seq<Seq<char>>
    decreases s.len(),
{
    if s.len() == 0 {
        seq![Seq::<char>::empty()]
    } else {
        let prev = split_by(s.drop_last(), sep);
        if sep(s.last()) {
            prev.push(Seq::<char>::empty())
        } else {
            prev.update(prev.len() - 1, prev.last().push(s.last()))
        }
    }
}

proof fn lemma_split_by_nonempty(s: Seq<char>, sep: spec_fn(char) -> bool)
    ensures
        split_by(s, sep).len() >= 1,
    decreases s.len(),
{
    if s.len() > 0 {
        lemma_split_by_nonempty(s.drop_last(), sep);
    }
}

pub proof fn lemma_split_by_len(s: Seq<char>, sep: spec_fn(char) -> bool)
    ensures
        split_by(s, sep).len() >= 1,
{
    lemma_split_by_nonempty(s, sep);
}

/// Pieces that are not empty, in order.
pub open spec fn nonempty(parts: Seq<Seq<char>>) -> Seq<Seq<char>>
    decreases parts.len(),
{
    if parts.len() == 0 {
        parts
    } else if parts.last().len() > 0 {
        nonempty(parts.drop_last()).push(parts.last())
    } else {
        nonempty(parts.drop_last())
    }
}

/// `str::split_whitespace`.
pub open spec fn split_ws(s: Seq<char>) -> Seq<Seq<char>> {
    nonempty(split_by(s, |c: char| is_ws(c)))
}

/// Which characters separate the pieces of a split.
pub enum Sep {
    /// One given character.
    Char(char),
    /// `char::is_whitespace`.
    Space,
    /// White space, `,`, `(`, `)`, `[` or `]`.
    SpaceOrBrackets,
    /// White space, `:`, `,`, `(` or `)`.
    SpaceOrPunct,
    /// Anything that is not an ASCII digit.
    NonDigit,
    /// `]` or `}`.
    CloseBracket,
    /// An ASCII digit.
    Digit,
}

pub open spec fn sep_holds(sep: Sep, c: char) -> bool {
    match sep {
        Sep::Char(d) => c == d,
        Sep::Space => is_ws(c),
        Sep::SpaceOrBrackets => is_ws(c) || c == ',' || c == '(' || c == ')' || c == '[' || c
            == ']',
        Sep::SpaceOrPunct => is_ws(c) || c == ':' || c == ',' || c == '(' || c == ')',
        Sep::NonDigit => !is_digit(c),
        Sep::CloseBracket => c == ']' || c == '}',
        Sep::Digit => is_digit(c),
    }
}

pub open spec fn sep_fn(sep: Sep) -> spec_fn(char) -> bool {
    |c: char| sep_holds(sep, c)
}

fn is_sep(sep: &Sep, c: char) -> (b: bool)
    ensures
        b == sep_holds(*sep, c),
{
    match sep {
        Sep::Char(d) => c == *d,
        Sep::Space => is_whitespace(c),
        Sep::SpaceOrBrackets => is_whitespace(c) || c == ',' || c == '(' || c == ')' || c == '['
            || c == ']',
        Sep::SpaceOrPunct => is_whitespace(c) || c == ':' || c == ',' || c == '(' || c == ')',
        Sep::NonDigit => !is_ascii_digit(c),
        Sep::CloseBracket => c == ']' || c == '}',
        Sep::Digit => is_ascii_digit(c),
    }
}

pub open spec fn views(v: Seq<Vec<char>>) -> Seq<Seq<char>> {
    v.map_values(|x: Vec<char>| x@)
}

/// Splits `s` at every separator character.
pub fn split(s: &[char], sep: Sep) -> (r: Vec<Vec<char>>)
    ensures
        views(r@) == split_by(s@, sep_fn(sep)),
{
    let mut r: Vec<Vec<char>> = Vec::new();
    let mut cur: Vec<char> = Vec::new();
    let mut i: usize = 0;
    while i < s.len()
        invariant
            i <= s@.len(),
            views(r@).push(cur@) == split_by(s@.take(i as int), sep_fn(sep)),
        decreases s@.len() - i,
    {
        let c = s[i];
        let ghost before = views(r@).push(cur@);
        proof {
            assert(s@.take(i + 1 as int).drop_last() =~= s@.take(i as int));
            assert(s@.take(i + 1 as int).last() == c);
        }
        if is_sep(&sep, c) {
            let done = cur;
            r.push(done);
            cur = Vec::new();
            assert(views(r@).push(cur@) =~= before.push(Seq::<char>::empty()));
        } else {
            cur.push(c);
            assert(views(r@).push(cur@) =~= before.update(
                before.len() - 1,
                before.last().push(c),
            ));
        }
        i += 1;
    }
    r.push(cur);
    assert(s@.take(s@.len() as int) =~= s@);
    assert(views(r@) =~= split_by(s@, sep_fn(sep)));
    r
}

/// Keeps only the non-empty pieces.
pub fn keep_nonempty(parts: &Vec<Vec<char>>) -> (r: Vec<Vec<char>>)
    ensures
        views(r@) == nonempty(views(parts@)),
{
    let ghost all = views(parts@);
    let mut r: Vec<Vec<char>> = Vec::new();
    let mut i: usize = 0;
    while i < parts.len()
        invariant
            i <= parts@.len(),
            all == views(parts@),
            views(r@) == nonempty(all.take(i as int)),
        decreases parts@.len() - i,
    {
        proof {
            assert(all.take(i + 1 as int).drop_last() =~= all.take(i as int));
            assert(all.take(i + 1 as int).last() == parts@[i as int]@);
        }
        if parts[i].len() > 0 {
            let p = copy_range(&parts[i], 0, parts[i].len());
            assert(p@ =~= parts@[i as int]@);
            let ghost before = views(r@);
            r.push(p);
            assert(views(r@) =~= before.push(p@));
        }
        i += 1;
    }
    assert(all.take(parts@.len() as int) =~= all);
    r
}

/// `str::split_whitespace`.
pub fn split_whitespace(s: &[char]) -> (r: Vec<Vec<char>>)
    ensures
        views(r@) == split_ws(s@),
{
    let parts = split(s, Sep::Space);
    assert(sep_fn(Sep::Space) == (|c: char| is_ws(c)));
    keep_nonempty(&parts)
}

// ---------------------------------------------------------------------------
// Lines
// ---------------------------------------------------------------------------

pub open spec fn strip_cr(line: Seq<char>) -> Seq<char> {
    if line.len() > 0 && line.last() == '\r' {
        line.drop_last()
    } else {
        line
    }
}

/// `str::lines`: split at `\n`, drop a `\r` before each `\n`, no empty line after a
/// final `\n`.
pub open spec fn lines(s: Seq<char>) -> Seq<Seq<char>> {
    let parts = split_by(s, sep_fn(Sep::Char('\n')));
    let n = parts.len();
    let m = if s.len() == 0 || s.last() == '\n' {
        n - 1
    } else {
        n as int
    };
    Seq::new(m as nat, |i: int| if i < n - 1 { strip_cr(parts[i]) } else { parts[i] })
}

fn strip_cr_exec(line: Vec<char>) -> (r: Vec<char>)
    ensures
        r@ == strip_cr(line@),
{
    let mut line = line;
    if line.len() > 0 && line[line.len() - 1] == '\r' {
        line.pop();
    }
    line
}

/// `str::lines`.
pub fn lines_of(s: &[char]) -> (r: Vec<Vec<char>>)
    ensures
        views(r@) == lines(s@),
{
    let parts = split(s, Sep::Char('\n'));
    proof {
        lemma_split_by_nonempty(s@, sep_fn(Sep::Char('\n')));
    }
    let n = parts.len();
    let m: usize = if s.len() == 0 || s[s.len() - 1] == '\n' {
        n - 1
    } else {
        n
    };
    let ghost pv = views(parts@);
    let mut r: Vec<Vec<char>> = Vec::new();
    let mut i: usize = 0;
    while i < m
        invariant
            m <= n == pv.len() == parts@.len(),
            pv == views(parts@),
            i <= m,
            views(r@) =~= Seq::new(
                i as nat,
                |k: int| if k < n - 1 { strip_cr(pv[k]) } else { pv[k] },
            ),
        decreases m - i,
    {
        let p = copy_range(&parts[i], 0, parts[i].len());
        assert(p@ =~= pv[i as int]);
        let ghost before = views(r@);
        if i + 1 < n {
            let q = strip_cr_exec(p);
            r.push(q);
            assert(views(r@) =~= before.push(q@));
        } else {
            r.push(p);
            assert(views(r@) =~= before.push(p@));
        }
        i += 1;
    }
    r
}

// ---------------------------------------------------------------------------
// Searching
// ---------------------------------------------------------------------------

pub open spec fn matches_at(s: Seq<char>, pat: Seq<char>, i: int) -> bool {
    0 <= i && i + pat.len() <= s.len() && s.subrange(i, i + pat.len()) == pat
}

pub open spec fn find_from(s: Seq<char>, pat: Seq<char>, i: int) -> Option<int>
    decreases s.len() + 1 - i,
{
    if i < 0 || i + pat.len() > s.len() {
        None
    } else if matches_at(s, pat, i) {
        Some(i)
    } else {
        find_from(s, pat, i + 1)
    }
}

/// `str::find` for a text pattern, counted in characters.
pub open spec fn find(s: Seq<char>, pat: Seq<char>) -> Option<int> {
    find_from(s, pat, 0)
}

/// `str::contains` for a text pattern.
pub open spec fn contains(s: Seq<char>, pat: Seq<char>) -> bool {
    find(s, pat) is Some
}

pub proof fn lemma_find_from_facts(s: Seq<char>, pat: Seq<char>, i: int)
    requires
        0 <= i,
    ensures
        find_from(s, pat, i) matches Some(k) ==> i <= k && matches_at(s, pat, k) && (forall|j: int|
            i <= j < k ==> !matches_at(s, pat, j)),
        find_from(s, pat, i) is None ==> forall|j: int| i <= j ==> !matches_at(s, pat, j),
    decreases s.len() + 1 - i,
{
    if i + pat.len() <= s.len() && !matches_at(s, pat, i) {
        lemma_find_from_facts(s, pat, i + 1);
    }
}

pub proof fn lemma_find_facts(s: Seq<char>, pat: Seq<char>)
    ensures
        find(s, pat) matches Some(k) ==> 0 <= k && k + pat.len() <= s.len() && s.subrange(
            k,
            k + pat.len(),
        ) == pat && (forall|j: int| 0 <= j < k ==> !matches_at(s, pat, j)),
        find(s, pat) is None ==> forall|j: int| 0 <= j ==> !matches_at(s, pat, j),
{
    lemma_find_from_facts(s, pat, 0);
}

fn matches_here(s: &[char], pat: &[char], i: usize) -> (b: bool)
    requires
        i + pat@.len() <= s@.len(),
    ensures
        b == matches_at(s@, pat@, i as int),
{
    let mut k: usize = 0;
    while k < pat.len()
        invariant
            i + pat@.len() <= s@.len(),
            k <= pat@.len(),
            forall|j: int| 0 <= j < k ==> s@[i + j] == pat@[j],
        decreases pat@.len() - k,
    {
        assert(i + k < s.len());
        if s[i + k] != pat[k] {
            assert(s@.subrange(i as int, i + pat@.len())[k as int] != pat@[k as int]);
            return false;
        }
        k += 1;
    }
    assert(s@.subrange(i as int, i + pat@.len()) =~= pat@);
    true
}

/// `str::find`, as a character index.
pub fn find_chars(s: &[char], pat: &[char]) -> (r: Option<usize>)
    ensures
        r matches Some(k) ==> find(s@, pat@) == Some(k as int),
        r is None ==> find(s@, pat@) is None,
{
    if pat.len() > s.len() {
        return None;
    }
    let last = s.len() - pat.len();
    let mut i: usize = 0;
    while i <= last
        invariant
            last + pat@.len() == s@.len(),
            i <= last + 1,
            find(s@, pat@) == find_from(s@, pat@, i as int),
        decreases last + 1 - i,
    {
        if matches_here(s, pat, i) {
            return Some(i);
        }
        if i == last {
            return None;
        }
        i += 1;
    }
    None
}

/// `str::find` with a literal pattern.
pub fn find_str(s: &[char], pat: &str) -> (r: Option<usize>)
    ensures
        r matches Some(k) ==> find(s@, pat@) == Some(k as int),
        r is None ==> find(s@, pat@) is None,
{
    let p = chars_of(pat);
    find_chars(s, &p)
}

/// `str::contains` with a literal pattern.
pub fn contains_str(s: &[char], pat: &str) -> (b: bool)
    ensures
        b == contains(s@, pat@),
{
    find_str(s, pat).is_some()
}

/// `str::starts_with` for a text pattern.
pub open spec fn starts_with(s: Seq<char>, pat: Seq<char>) -> bool {
    pat.len() <= s.len() && s.take(pat.len() as int) == pat
}

pub fn starts_with_str(s: &[char], pat: &str) -> (b: bool)
    ensures
        b == starts_with(s@, pat@),
{
    let p = chars_of(pat);
    if p.len() > s.len() {
        return false;
    }
    let b = matches_here(s, &p, 0);
    assert(s@.subrange(0, p@.len() as int) =~= s@.take(p@.len() as int));
    b
}

/// `str::ends_with` for a text pattern.
pub open spec fn ends_with(s: Seq<char>, pat: Seq<char>) -> bool {
    pat.len() <= s.len() && s.skip(s.len() - pat.len()) == pat
}

pub fn ends_with_str(s: &[char], pat: &str) -> (b: bool)
    ensures
        b == ends_with(s@, pat@),
{
    let p = chars_of(pat);
    if p.len() > s.len() {
        return false;
    }
    let b = matches_here(s, &p, s.len() - p.len());
    assert(s@.subrange(s@.len() - p@.len(), s@.len() as int) =~= s@.skip(s@.len() - p@.len()));
    b
}

/// First index of a character.
pub open spec fn index_of(s: Seq<char>, c: char) -> Option<int>
    decreases s.len(),
{
    if s.len() == 0 {
        None
    } else {
        match index_of(s.drop_last(), c) {
            Some(k) => Some(k),
            None => if s.last() == c {
                Some(s.len() - 1)
            } else {
                None
            },
        }
    }
}

pub proof fn lemma_index_of(s: Seq<char>, c: char)
    ensures
        index_of(s, c) matches Some(k) ==> 0 <= k < s.len() && s[k] == c && forall|j: int|
            0 <= j < k ==> s[j] != c,
        index_of(s, c) is None ==> forall|j: int| 0 <= j < s.len() ==> s[j] != c,
    decreases s.len(),
{
    if s.len() > 0 {
        let t = s.drop_last();
        lemma_index_of(t, c);
        assert(forall|j: int| 0 <= j < t.len() ==> t[j] == s[j]);
    }
}

pub proof fn lemma_index_of_unique(s: Seq<char>, c: char, k: int)
    requires
        0 <= k < s.len(),
        s[k] == c,
        forall|j: int| 0 <= j < k ==> s[j] != c,
    ensures
        index_of(s, c) == Some(k),
{
    lemma_index_of(s, c);
}

/// Last index of a character (`str::rfind` with a `char`).
pub open spec fn last_index_of(s: Seq<char>, c: char) -> Option<int>
    decreases s.len(),
{
    if s.len() == 0 {
        None
    } else if s.last() == c {
        Some(s.len() - 1)
    } else {
        last_index_of(s.drop_last(), c)
    }
}

pub proof fn lemma_last_index_of(s: Seq<char>, c: char)
    ensures
        last_index_of(s, c) matches Some(k) ==> 0 <= k < s.len() && s[k] == c && forall|j: int|
            k < j < s.len() ==> s[j] != c,
        last_index_of(s, c) is None ==> forall|j: int| 0 <= j < s.len() ==> s[j] != c,
    decreases s.len(),
{
    if s.len() > 0 {
        let t = s.drop_last();
        lemma_last_index_of(t, c);
        assert(forall|j: int| 0 <= j < t.len() ==> t[j] == s[j]);
    }
}

pub fn index_of_char(s: &[char], c: char) -> (r: Option<usize>)
    ensures
        r matches Some(k) ==> index_of(s@, c) == Some(k as int),
        r is None ==> index_of(s@, c) is None,
{
    let mut i: usize = 0;
    while i < s.len()
        invariant
            i <= s@.len(),
            forall|j: int| 0 <= j < i ==> s@[j] != c,
        decreases s@.len() - i,
    {
        if s[i] == c {
            proof {
                lemma_index_of_unique(s@, c, i as int);
            }
            return Some(i);
        }
        i += 1;
    }
    proof {
        lemma_index_of(s@, c);
        if index_of(s@, c) is Some {
            let k = index_of(s@, c)->0;
            assert(s@[k] == c);
        }
    }
    None
}

pub fn last_index_of_char(s: &[char], c: char) -> (r: Option<usize>)
    ensures
        r matches Some(k) ==> last_index_of(s@, c) == Some(k as int),
        r is None ==> last_index_of(s@, c) is None,
{
    let mut i: usize = s.len();
    assert(s@.take(i as int) =~= s@);
    while i > 0
        invariant
            i <= s@.len(),
            last_index_of(s@, c) == last_index_of(s@.take(i as int), c),
        decreases i,
    {
        assert(s@.take(i as int).drop_last() =~= s@.take(i - 1 as int));
        if s[i - 1] == c {
            return Some(i - 1);
        }
        i -= 1;
    }
    None
}

/// `str::split_once` with a `char`.
pub open spec fn split_once(s: Seq<char>, c: char) -> Option<(Seq<char>, Seq<char>)> {
    match index_of(s, c) {
        Some(k) => Some((s.take(k), s.skip(k + 1))),
        None => None,
    }
}

pub fn split_once_char(s: &[char], c: char) -> (r: Option<(Vec<char>, Vec<char>)>)
    ensures
        r matches Some(p) ==> split_once(s@, c) == Some((p.0@, p.1@)),
        r is None ==> split_once(s@, c) is None,
{
    match index_of_char(s, c) {
        Some(k) => {
            proof {
                lemma_index_of(s@, c);
            }
            assert(k < s.len());
            let a = copy_range(s, 0, k);
            let b = copy_range(s, k + 1, s.len());
            assert(a@ =~= s@.take(k as int));
            assert(b@ =~= s@.skip(k + 1 as int));
            Some((a, b))
        },
        None => None,
    }
}

} // verus!

verus! {

// ---------------------------------------------------------------------------
// Strings and optional strings
// ---------------------------------------------------------------------------

/// The views of a sequence of strings.
pub open spec fn strs(v: Seq<String>) -> Seq<Seq<char>> {
    v.map_values(|s: String| s@)
}

/// Whether an optional string holds exactly the given text.
pub open spec fn opt_is(o: Option<String>, lit: Seq<char>) -> bool {
    o matches Some(v) && v@ == lit
}

/// The view of an optional string.
pub open spec fn opt_view(o: Option<String>) -> Option<Seq<char>> {
    match o {
        Some(v) => Some(v@),
        None => None,
    }
}

/// Whether a string equals a literal.
pub fn str_is(s: &String, lit: &str) -> (b: bool)
    ensures
        b == (s@ == lit@),
{
    let v = chars_of(s.as_str());
    eq_str(&v, lit)
}

/// Whether an optional string holds exactly a literal.
pub fn opt_str_is(o: &Option<String>, lit: &str) -> (b: bool)
    ensures
        b == opt_is(*o, lit@),
{
    match o {
        Some(v) => str_is(v, lit),
        None => false,
    }
}

/// A copy of a string.
pub fn copy_string(s: &String) -> (r: String)
    ensures
        r == *s,
        r@ == s@,
{
    s.clone()
}

/// A copy of an optional string.
pub fn copy_opt_string(o: &Option<String>) -> (r: Option<String>)
    ensures
        r == *o,
        opt_view(r) == opt_view(*o),
{
    match o {
        Some(v) => Some(v.clone()),
        None => None,
    }
}

/// A literal followed by a string.
pub fn lit_plus(a: &str, b: &String) -> (r: String)
    ensures
        r@ == a@ + b@,
{
    let mut r = String::from_str(a);
    r.append(b.as_str());
    r
}

/// A string followed by a literal.
pub fn plus_lit(a: &String, b: &str) -> (r: String)
    ensures
        r@ == a@ + b@,
{
    let mut r = a.clone();
    r.append(b);
    r
}

/// Appends a string to a sequence of strings.
pub fn push_str(v: &mut Vec<String>, s: String)
    ensures
        strs(final(v)@) == strs(old(v)@).push(s@),
        final(v)@.len() == old(v)@.len() + 1,
{
    let ghost before = v@;
    v.push(s);
    assert(strs(v@) =~= strs(before).push(s@));
}

/// Appends all strings of `w` to `v`.
pub fn append_strs(v: &mut Vec<String>, w: Vec<String>)
    ensures
        strs(final(v)@) == strs(old(v)@) + strs(w@),
{
    let ghost before = v@;
    let ghost wv = w@;
    let mut w = w;
    v.append(&mut w);
    assert(strs(v@) =~= strs(before) + strs(wv));
}

// ---------------------------------------------------------------------------
// First match in a sequence
// ---------------------------------------------------------------------------

/// First index whose character satisfies `p`.
pub open spec fn index_where(s: Seq<char>, p: spec_fn(char) -> bool) -> Option<int>
    decreases s.len(),
{
    if s.len() == 0 {
        None
    } else {
        match index_where(s.drop_last(), p) {
            Some(k) => Some(k),
            None => if p(s.last()) {
                Some(s.len() - 1)
            } else {
                None
            },
        }
    }
}

pub proof fn lemma_index_where(s: Seq<char>, p: spec_fn(char) -> bool)
    ensures
        index_where(s, p) matches Some(k) ==> 0 <= k < s.len() && p(s[k]) && forall|j: int|
            0 <= j < k ==> !p(#[trigger] s[j]),
        index_where(s, p) is None ==> forall|j: int| 0 <= j < s.len() ==> !p(#[trigger] s[j]),
    decreases s.len(),
{
    if s.len() > 0 {
        let t = s.drop_last();
        lemma_index_where(t, p);
        assert(forall|j: int| 0 <= j < t.len() ==> t[j] == s[j]);
    }
}

/// First index of a separator character.
pub fn index_of_sep(s: &[char], sep: Sep) -> (r: Option<usize>)
    ensures
        r matches Some(k) ==> index_where(s@, sep_fn(sep)) == Some(k as int),
        r is None ==> index_where(s@, sep_fn(sep)) is None,
{
    let ghost p = sep_fn(sep);
    let mut i: usize = 0;
    while i < s.len()
        invariant
            i <= s@.len(),
            p == sep_fn(sep),
            forall|j: int| 0 <= j < i ==> !p(#[trigger] s@[j]),
        decreases s@.len() - i,
    {
        if is_sep(&sep, s[i]) {
            proof {
                lemma_index_where(s@, p);
                match index_where(s@, p) {
                    Some(k) => {
                        if k > i {
                            assert(!p(s@[i as int]));
                        }
                    },
                    None => {
                        assert(!p(s@[i as int]));
                    },
                }
            }
            return Some(i);
        }
        i += 1;
    }
    proof {
        lemma_index_where(s@, p);
        if index_where(s@, p) is Some {
            let k = index_where(s@, p)->0;
            assert(p(s@[k]));
        }
    }
    None
}

/// The first `Some` that `f` gives on the elements of `s`, in order.
pub open spec fn first_some<A, B>(s: Seq<A>, f: spec_fn(A) -> Option<B>) -> Option<B>
    decreases s.len(),
{
    if s.len() == 0 {
        None
    } else if f(s[0]) is Some {
        f(s[0])
    } else {
        first_some(s.drop_first(), f)
    }
}

pub proof fn lemma_first_some_skip<A, B>(s: Seq<A>, f: spec_fn(A) -> Option<B>, i: int)
    requires
        0 <= i <= s.len(),
        forall|j: int| 0 <= j < i ==> f(#[trigger] s[j]) is None,
    ensures
        first_some(s, f) == first_some(s.skip(i), f),
    decreases i,
{
    if i > 0 {
        assert(f(s[0]) is None);
        assert(s.drop_first().skip(i - 1) =~= s.skip(i));
        lemma_first_some_skip(s.drop_first(), f, i - 1);
    } else {
        assert(s.skip(0) =~= s);
    }
}

pub proof fn lemma_first_some_at<A, B>(s: Seq<A>, f: spec_fn(A) -> Option<B>, i: int)
    requires
        0 <= i < s.len(),
        forall|j: int| 0 <= j < i ==> f(#[trigger] s[j]) is None,
        f(s[i]) is Some,
    ensures
        first_some(s, f) == f(s[i]),
{
    lemma_first_some_skip(s, f, i);
    assert(s.skip(i)[0] == s[i]);
}

pub proof fn lemma_first_some_none<A, B>(s: Seq<A>, f: spec_fn(A) -> Option<B>)
    requires
        forall|j: int| 0 <= j < s.len() ==> f(#[trigger] s[j]) is None,
    ensures
        first_some(s, f) is None,
{
    lemma_first_some_skip(s, f, s.len() as int);
}

/// Copies `ls[from..to]` into a new vector of texts.
pub fn copy_range_vecs(ls: &Vec<Vec<char>>, from: usize, to: usize) -> (r: Vec<Vec<char>>)
    requires
        from <= to <= ls@.len(),
    ensures
        views(r@) == views(ls@).subrange(from as int, to as int),
{
    let mut r: Vec<Vec<char>> = Vec::new();
    let mut i: usize = from;
    while i < to
        invariant
            from <= i <= to <= ls@.len(),
            views(r@) =~= views(ls@).subrange(from as int, i as int),
        decreases to - i,
    {
        let c = copy_range(&ls[i], 0, ls[i].len());
        assert(c@ =~= ls@[i as int]@);
        let ghost b = views(r@);
        r.push(c);
        assert(views(r@) =~= b.push(c@));
        i += 1;
    }
    r
}

/// A copy of a list of strings.
pub fn copy_strings(v: &Vec<String>) -> (r: Vec<String>)
    ensures
        strs(r@) == strs(v@),
{
    let mut r: Vec<String> = Vec::new();
    let mut i: usize = 0;
    while i < v.len()
        invariant
            i <= v@.len(),
            strs(r@) =~= strs(v@).take(i as int),
        decreases v@.len() - i,
    {
        push_str(&mut r, copy_string(&v[i]));
        i += 1;
    }
    assert(strs(v@).take(v@.len() as int) =~= strs(v@));
    r
}

} // verus!
