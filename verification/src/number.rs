//! Decimal numbers and dotted-quad addresses in text.
use vstd::prelude::*;
use crate::text::{chars_of, is_ascii_digit, is_digit, sep_fn, split, split_by, string_of, views, Sep};

verus! {

/// The value of a string of ASCII digits.
pub open spec fn digits_value(s: Seq<char>) -> int
    decreases s.len(),
{
    if s.len() == 0 {
        0
    } else {
        digits_value(s.drop_last()) * 10 + (s.last() as int - '0' as int)
    }
}

pub open spec fn all_digits(s: Seq<char>) -> bool {
    forall|i: int| 0 <= i < s.len() ==> is_digit(#[trigger] s[i])
}

/// The text after an optional leading `+`.
pub open spec fn unsigned_digits(s: Seq<char>) -> Seq<char> {
    if s.len() > 0 && s[0] == '+' {
        s.drop_first()
    } else {
        s
    }
}

/// `str::parse::<u32>`: an optional `+`, then at least one ASCII digit, with a value that
/// fits in a `u32`.
pub open spec fn parse_u32(s: Seq<char>) -> Option<u32> {
    let d = unsigned_digits(s);
    if d.len() > 0 && all_digits(d) && digits_value(d) <= u32::MAX {
        Some(digits_value(d) as u32)
    } else {
        None
    }
}

proof fn lemma_digits_value_nonneg(s: Seq<char>)
    requires
        all_digits(s),
    ensures
        digits_value(s) >= 0,
    decreases s.len(),
{
    if s.len() > 0 {
        lemma_digits_value_nonneg(s.drop_last());
    }
}

proof fn lemma_digits_value_grows(s: Seq<char>, i: int, j: int)
    requires
        all_digits(s),
        0 <= i <= j <= s.len(),
    ensures
        digits_value(s.take(i)) <= digits_value(s.take(j)),
    decreases j - i,
{
    if i < j {
        lemma_digits_value_grows(s, i, j - 1);
        let t = s.take(j);
        assert(t.drop_last() =~= s.take(j - 1));
        lemma_digits_value_nonneg(s.take(j - 1));
        assert(is_digit(s[j - 1]));
    }
}

/// Parses a decimal `u32` the way `str::parse::<u32>` does.
pub fn parse_u32_chars(s: &[char]) -> (r: Option<u32>)
    ensures
        r == parse_u32(s@),
{
    let start: usize = if s.len() > 0 && s[0] == '+' {
        1
    } else {
        0
    };
    let ghost d = unsigned_digits(s@);
    assert(d =~= s@.skip(start as int));
    if start == s.len() {
        return None;
    }
    let mut acc: u64 = 0;
    let mut i: usize = start;
    while i < s.len()
        invariant
            start <= i <= s@.len(),
            d == unsigned_digits(s@),
            d =~= s@.skip(start as int),
            all_digits(d.take(i - start)),
            acc == digits_value(d.take(i - start)),
            acc <= u32::MAX,
        decreases s@.len() - i,
    {
        let c = s[i];
        assert(d[i - start] == c);
        if !is_ascii_digit(c) {
            assert(!is_digit(d[i - start]));
            assert(!all_digits(d));
            assert(parse_u32(s@) is None);
            return None;
        }
        let v = (c as u64) - ('0' as u64);
        let next = acc * 10 + v;
        assert(d.take(i - start + 1).drop_last() =~= d.take(i - start));
        assert(d.take(i - start + 1).last() == c);
        assert(all_digits(d.take(i - start + 1)));
        assert(next == digits_value(d.take(i - start + 1)));
        if next > 4294967295 {
            proof {
                if all_digits(d) {
                    lemma_digits_value_grows(d, i - start + 1, d.len() as int);
                    assert(d.take(d.len() as int) =~= d);
                }
            }
            return None;
        }
        acc = next;
        i += 1;
    }
    assert(d.take(i - start) =~= d);
    Some(acc as u32)
}

pub open spec fn digit_char(d: int) -> char {
    ((d + '0' as int) as u32) as char
}

/// Decimal digits of a number, as `Display` prints an unsigned integer.
pub open spec fn dec(n: nat) -> Seq<char>
    decreases n,
{
    if n < 10 {
        seq![digit_char(n as int)]
    } else {
        dec(n / 10).push(digit_char((n % 10) as int))
    }
}

/// Decimal digits of a `u64`.
pub fn dec_chars(n: u64) -> (r: Vec<char>)
    ensures
        r@ == dec(n as nat),
    decreases n,
{
    let d = ((n % 10) as u8 + 48) as char;
    if n < 10 {
        let mut v: Vec<char> = Vec::new();
        v.push(d);
        assert(v@ =~= seq![digit_char(n as int)]);
        v
    } else {
        let mut v = dec_chars(n / 10);
        v.push(d);
        v
    }
}

/// Decimal digits of a `u128`.
pub fn dec_chars_wide(n: u128) -> (r: Vec<char>)
    ensures
        r@ == dec(n as nat),
    decreases n,
{
    let d = ((n % 10) as u8 + 48) as char;
    if n < 10 {
        let mut v: Vec<char> = Vec::new();
        v.push(d);
        assert(v@ =~= seq![digit_char(n as int)]);
        v
    } else {
        let mut v = dec_chars_wide(n / 10);
        v.push(d);
        v
    }
}

/// The `Display` text of a `u128`.
pub fn u128_text(n: u128) -> (s: String)
    ensures
        s@ == dec(n as nat),
{
    let v = dec_chars_wide(n);
    string_of(&v)
}

/// The `Display` text of a `u32`.
pub fn u32_text(n: u32) -> (s: String)
    ensures
        s@ == dec(n as nat),
{
    let v = dec_chars(n as u64);
    string_of(&v)
}

/// The `Display` text of a `u64`.
pub fn u64_text(n: u64) -> (s: String)
    ensures
        s@ == dec(n as nat),
{
    let v = dec_chars(n);
    string_of(&v)
}

// ---------------------------------------------------------------------------
// IPv4 dotted quads
// ---------------------------------------------------------------------------

/// One octet of a dotted quad as `Ipv4Addr::from_str` accepts it: one to three ASCII
/// digits, no leading zero unless the octet is `0`, value at most 255.
pub open spec fn ipv4_octet(p: Seq<char>) -> bool {
    1 <= p.len() <= 3 && all_digits(p) && (p.len() == 1 || p[0] != '0') && digits_value(p)
        <= 255
}

/// `Ipv4Addr::from_str(s).is_ok()`.
pub open spec fn is_ipv4(s: Seq<char>) -> bool {
    let parts = split_by(s, sep_fn(Sep::Char('.')));
    parts.len() == 4 && forall|i: int| 0 <= i < 4 ==> ipv4_octet(#[trigger] parts[i])
}

fn ipv4_octet_exec(p: &[char]) -> (b: bool)
    ensures
        b == ipv4_octet(p@),
{
    if p.len() < 1 || p.len() > 3 {
        return false;
    }
    let mut i: usize = 0;
    while i < p.len()
        invariant
            i <= p@.len(),
            forall|j: int| 0 <= j < i ==> is_digit(#[trigger] p@[j]),
        decreases p@.len() - i,
    {
        if !is_ascii_digit(p[i]) {
            return false;
        }
        i += 1;
    }
    if p.len() > 1 && p[0] == '0' {
        return false;
    }
    match parse_u32_chars(p) {
        Some(v) => {
            assert(unsigned_digits(p@) == p@);
            assert(all_digits(p@));
            proof {
                lemma_digits_value_nonneg(p@);
            }
            assert(v == digits_value(p@));
            v <= 255
        },
        None => {
            proof {
                assert(unsigned_digits(p@) == p@);
                lemma_digits_value_nonneg(p@);
                lemma_three_digits_small(p@);
            }
            false
        },
    }
}

pub open spec fn pow10(n: nat) -> int
    decreases n,
{
    if n == 0 {
        1
    } else {
        10 * pow10((n - 1) as nat)
    }
}

proof fn lemma_digits_value_bound(p: Seq<char>)
    requires
        all_digits(p),
    ensures
        digits_value(p) < pow10(p.len()),
    decreases p.len(),
{
    if p.len() > 0 {
        let t = p.drop_last();
        assert(all_digits(t)) by {
            assert forall|i: int| 0 <= i < t.len() implies is_digit(#[trigger] t[i]) by {
                assert(t[i] == p[i]);
            }
        }
        lemma_digits_value_bound(t);
        assert(is_digit(p.last()));
    }
}

proof fn lemma_three_digits_small(p: Seq<char>)
    requires
        all_digits(p),
        p.len() <= 3,
    ensures
        digits_value(p) <= 999,
{
    lemma_digits_value_bound(p);
    reveal_with_fuel(pow10, 4);
}

/// Whether a text is an IPv4 address in dotted-quad form (`Ipv4Addr::from_str` succeeds).
pub fn is_ipv4_chars(s: &[char]) -> (b: bool)
    ensures
        b == is_ipv4(s@),
{
    let parts = split(s, Sep::Char('.'));
    if parts.len() != 4 {
        return false;
    }
    let mut i: usize = 0;
    while i < 4
        invariant
            parts@.len() == 4,
            views(parts@) == split_by(s@, sep_fn(Sep::Char('.'))),
            i <= 4,
            forall|j: int| 0 <= j < i ==> ipv4_octet(#[trigger] views(parts@)[j]),
        decreases 4 - i,
    {
        if !ipv4_octet_exec(&parts[i]) {
            assert(views(parts@)[i as int] == parts@[i as int]@);
            assert(!ipv4_octet(split_by(s@, sep_fn(Sep::Char('.')))[i as int]));
            return false;
        }
        i += 1;
    }
    assert forall|j: int| 0 <= j < 4 implies ipv4_octet(
        #[trigger] split_by(s@, sep_fn(Sep::Char('.')))[j],
    ) by {
        assert(views(parts@)[j] == split_by(s@, sep_fn(Sep::Char('.')))[j]);
    }
    true
}

} // verus!
