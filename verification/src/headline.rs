//! The headline grammar: recognizes one line of text as a release heading.
//! A line that fails the grammar is plain body text, not an error.
use vstd::prelude::*;

verus! {

use crate::date::{calendar_date, valid_date, Date};
use crate::version::{opt_semver_view, parse_semver, semver_of, Semver, SemverV};

/// One recognized release heading: its nesting level, the literal prefix
/// before the version (at most a `v`), the version (`None` stands for the
/// "unreleased" literal) and an optional date.
#[derive(Clone, Debug, PartialEq, Eq)]
pub struct Headline {
    pub level: usize,
    pub version_prefix: Vec<u8>,
    pub version: Option<Semver>,
    pub date: Option<Date>,
}

#[verifier::ext_equal]
pub ghost struct HeadlineV {
    pub level: int,
    pub version_prefix: Seq<u8>,
    pub version: Option<SemverV>,
    pub date: Option<Date>,
}

impl View for Headline {
    type V = HeadlineV;

    open spec fn view(&self) -> HeadlineV {
        HeadlineV {
            level: self.level as int,
            version_prefix: self.version_prefix@,
            version: opt_semver_view(self.version),
            date: self.date,
        }
    }
}

/// The meaning of an optional parsed headline, for contracts.
pub open spec fn opt_headline_view(r: Option<Headline>) -> Option<HeadlineV> {
    match r {
        Some(h) => Some(h@),
        None => None,
    }
}

/// ASCII whitespace.
pub open spec fn is_ws(b: u8) -> bool {
    b == 32 || b == 9 || b == 10 || b == 13 || b == 11 || b == 12
}

pub open spec fn is_digit(b: u8) -> bool {
    48 <= b <= 57
}

/// The first position at or after `i` that does not hold whitespace.
pub open spec fn skip_ws(s: Seq<u8>, i: int) -> int
    decreases s.len() - i,
{
    if 0 <= i < s.len() && is_ws(s[i]) {
        skip_ws(s, i + 1)
    } else {
        i
    }
}

/// The first position at or after `i` that does not hold a `#`.
pub open spec fn hashes_end(s: Seq<u8>, i: int) -> int
    decreases s.len() - i,
{
    if 0 <= i < s.len() && s[i] == 35 {
        hashes_end(s, i + 1)
    } else {
        i
    }
}

/// The first position at or after `i` that holds whitespace, or the length.
pub open spec fn skip_non_ws(s: Seq<u8>, i: int) -> int
    decreases s.len() - i,
{
    if 0 <= i < s.len() && !is_ws(s[i]) {
        skip_non_ws(s, i + 1)
    } else {
        i
    }
}

pub open spec fn all_digits(s: Seq<u8>, i: int, j: int) -> bool {
    forall|k: int| i <= k < j ==> is_digit(#[trigger] s[k])
}

/// The decimal value of the digits `s[i..j]`.
pub open spec fn digits_val(s: Seq<u8>, i: int, j: int) -> int
    decreases j - i,
{
    if i >= j {
        0
    } else {
        digits_val(s, i, j - 1) * 10 + (s[j - 1] - 48)
    }
}

/// ASCII lower-casing of one byte.
pub open spec fn lower_byte(b: u8) -> u8 {
    if 65 <= b <= 90 {
        (b + 32) as u8
    } else {
        b
    }
}

/// Whether the ten bytes at `p` spell "unreleased", ASCII-case-insensitively.
pub open spec fn is_unreleased_at(s: Seq<u8>, p: int) -> bool {
    &&& p >= 0
    &&& p + 10 <= s.len()
    &&& lower_byte(s[p]) == 117
    &&& lower_byte(s[p + 1]) == 110
    &&& lower_byte(s[p + 2]) == 114
    &&& lower_byte(s[p + 3]) == 101
    &&& lower_byte(s[p + 4]) == 108
    &&& lower_byte(s[p + 5]) == 101
    &&& lower_byte(s[p + 6]) == 97
    &&& lower_byte(s[p + 7]) == 115
    &&& lower_byte(s[p + 8]) == 101
    &&& lower_byte(s[p + 9]) == 100
}

/// A parenthesized `(YYYY-MM-DD)` group at position `p`, as a date: `None`
/// when the group is absent, malformed, or no valid calendar date.
pub open spec fn date_group(s: Seq<u8>, p: int) -> Option<Date> {
    if p >= 0 && p + 12 <= s.len() && s[p] == 40 && all_digits(s, p + 1, p + 5) && s[p + 5] == 45
        && all_digits(s, p + 6, p + 8) && s[p + 8] == 45 && all_digits(s, p + 9, p + 11) && s[p
        + 11] == 41 {
        let y = digits_val(s, p + 1, p + 5);
        let m = digits_val(s, p + 6, p + 8);
        let d = digits_val(s, p + 9, p + 11);
        if valid_date(y as u16, m as u8, d as u8) {
            Some(Date { year: y as u16, month: m as u8, day: d as u8 })
        } else {
            None
        }
    } else {
        None
    }
}

/// The tail of the grammar after the version or the "unreleased" literal:
/// an optional parenthesized date, optional trailing whitespace, then the
/// end of the line. A present but invalid date group fails the whole line.
pub open spec fn finish_headline(
    line: Seq<u8>,
    after: int,
    level: int,
    version_prefix: Seq<u8>,
    version: Option<SemverV>,
) -> Option<HeadlineV> {
    let ws2 = skip_ws(line, after);
    match date_group(line, ws2) {
        Some(d) => {
            if skip_ws(line, ws2 + 12) == line.len() {
                Some(HeadlineV { level, version_prefix, version, date: Some(d) })
            } else {
                None
            }
        },
        None => {
            if ws2 == line.len() {
                Some(HeadlineV { level, version_prefix, version, date: None })
            } else {
                None
            }
        },
    }
}

/// The headline grammar: one or more `#` (the count is the level), optional
/// whitespace, then either an optional literal `v` followed by a semantic
/// version token, or the case-insensitive literal "unreleased"; optionally a
/// parenthesized date; trailing whitespace only.
pub open spec fn parse_headline(line: Seq<u8>) -> Option<HeadlineV> {
    let h_end = hashes_end(line, 0);
    if h_end == 0 {
        None
    } else {
        let v_start = skip_ws(line, h_end);
        let token_end = skip_non_ws(line, v_start);
        let has_v = 0 <= v_start < line.len() && line[v_start] == 118;
        let tok_start = if has_v {
            v_start + 1
        } else {
            v_start
        };
        let token = line.subrange(tok_start, token_end);
        match semver_of(token) {
            Some(ver) => finish_headline(
                line,
                token_end,
                h_end,
                if has_v {
                    seq![118u8]
                } else {
                    Seq::empty()
                },
                Some(ver),
            ),
            None => {
                if is_unreleased_at(line, v_start) {
                    finish_headline(line, v_start + 10, h_end, Seq::empty(), None)
                } else {
                    None
                }
            },
        }
    }
}

proof fn lemma_skip_non_ws_ge(s: Seq<u8>, i: int)
    ensures
        skip_non_ws(s, i) >= i,
    decreases s.len() - i,
{
    if 0 <= i < s.len() && !is_ws(s[i]) {
        lemma_skip_non_ws_ge(s, i + 1);
    }
}

fn is_ws_exec(b: u8) -> (r: bool)
    ensures
        r == is_ws(b),
{
    b == 32 || b == 9 || b == 10 || b == 13 || b == 11 || b == 12
}

fn skip_ws_exec(s: &[u8], from: usize) -> (r: usize)
    requires
        from <= s@.len(),
    ensures
        r as int == skip_ws(s@, from as int),
        from <= r <= s@.len(),
{
    let mut i = from;
    while i < s.len()
        invariant
            from <= i <= s@.len(),
            skip_ws(s@, from as int) == skip_ws(s@, i as int),
        decreases s@.len() - i,
    {
        if !is_ws_exec(s[i]) {
            return i;
        }
        i += 1;
    }
    i
}

fn hashes_end_exec(s: &[u8], from: usize) -> (r: usize)
    requires
        from <= s@.len(),
    ensures
        r as int == hashes_end(s@, from as int),
        from <= r <= s@.len(),
{
    let mut i = from;
    while i < s.len()
        invariant
            from <= i <= s@.len(),
            hashes_end(s@, from as int) == hashes_end(s@, i as int),
        decreases s@.len() - i,
    {
        if s[i] != 35 {
            return i;
        }
        i += 1;
    }
    i
}

fn skip_non_ws_exec(s: &[u8], from: usize) -> (r: usize)
    requires
        from <= s@.len(),
    ensures
        r as int == skip_non_ws(s@, from as int),
        from <= r <= s@.len(),
{
    let mut i = from;
    while i < s.len()
        invariant
            from <= i <= s@.len(),
            skip_non_ws(s@, from as int) == skip_non_ws(s@, i as int),
        decreases s@.len() - i,
    {
        if is_ws_exec(s[i]) {
            return i;
        }
        i += 1;
    }
    i
}

fn lower_byte_exec(b: u8) -> (r: u8)
    ensures
        r == lower_byte(b),
{
    if 65 <= b && b <= 90 {
        b + 32
    } else {
        b
    }
}

fn is_unreleased_at_exec(s: &[u8], p: usize) -> (r: bool)
    ensures
        r == is_unreleased_at(s@, p as int),
{
    if p > s.len() || s.len() - p < 10 {
        return false;
    }
    lower_byte_exec(s[p]) == 117 && lower_byte_exec(s[p + 1]) == 110 && lower_byte_exec(s[p + 2])
        == 114 && lower_byte_exec(s[p + 3]) == 101 && lower_byte_exec(s[p + 4]) == 108
        && lower_byte_exec(s[p + 5]) == 101 && lower_byte_exec(s[p + 6]) == 97 && lower_byte_exec(
        s[p + 7],
    ) == 115 && lower_byte_exec(s[p + 8]) == 101 && lower_byte_exec(s[p + 9]) == 100
}

fn date_group_exec(s: &[u8], p: usize) -> (r: Option<Date>)
    ensures
        r == date_group(s@, p as int),
{
    if p > s.len() || s.len() - p < 12 {
        return None;
    }
    let mut k: usize = 0;
    let mut digits_ok = true;
    while k < 10
        invariant
            p + 12 <= s@.len(),
            s@.len() <= usize::MAX,
            k <= 10,
            digits_ok == (forall|j: int|
                0 <= j < k && j != 4 && j != 7 ==> is_digit(#[trigger] s@[p + 1 + j])),
        decreases 10 - k,
    {
        if k != 4 && k != 7 && !(48 <= s[p + 1 + k] && s[p + 1 + k] <= 57) {
            digits_ok = false;
        }
        k += 1;
    }
    if !digits_ok {
        proof {
            assert(exists|j: int|
                0 <= j < 10 && j != 4 && j != 7 && !is_digit(#[trigger] s@[p + 1 + j]));
            let j0 = choose|j: int|
                0 <= j < 10 && j != 4 && j != 7 && !is_digit(#[trigger] s@[p + 1 + j]);
            assert(!is_digit(s@[p + 1 + j0]));
            if j0 < 4 {
                assert(!all_digits(s@, p as int + 1, p as int + 5));
            } else if j0 < 7 {
                assert(!all_digits(s@, p as int + 6, p as int + 8));
            } else {
                assert(!all_digits(s@, p as int + 9, p as int + 11));
            }
        }
        return None;
    }
    proof {
        assert forall|k2: int| p + 1 <= k2 < p + 5 implies is_digit(#[trigger] s@[k2]) by {
            assert(0 <= k2 - (p as int) - 1 < 10);
            assert(is_digit(s@[p + 1 + (k2 - (p as int) - 1)]));
        }
        assert(all_digits(s@, p as int + 1, p as int + 5));
        assert forall|k2: int| p + 6 <= k2 < p + 8 implies is_digit(#[trigger] s@[k2]) by {
            assert(is_digit(s@[p + 1 + (k2 - (p as int) - 1)]));
        }
        assert(all_digits(s@, p as int + 6, p as int + 8));
        assert forall|k2: int| p + 9 <= k2 < p + 11 implies is_digit(#[trigger] s@[k2]) by {
            assert(is_digit(s@[p + 1 + (k2 - (p as int) - 1)]));
        }
        assert(all_digits(s@, p as int + 9, p as int + 11));
    }
    if !(s[p] == 40 && s[p + 5] == 45 && s[p + 8] == 45 && s[p + 11] == 41) {
        return None;
    }
    let y: u16 = (s[p + 1] - 48) as u16 * 1000 + (s[p + 2] - 48) as u16 * 100 + (s[p + 3] - 48)
        as u16 * 10 + (s[p + 4] - 48) as u16;
    let m: u8 = (s[p + 6] - 48) * 10 + (s[p + 7] - 48);
    let d: u8 = (s[p + 9] - 48) * 10 + (s[p + 10] - 48);
    proof {
        reveal_with_fuel(digits_val, 5);
        assert(y as int == digits_val(s@, p as int + 1, p as int + 5));
        assert(m as int == digits_val(s@, p as int + 6, p as int + 8));
        assert(d as int == digits_val(s@, p as int + 9, p as int + 11));
    }
    calendar_date(y, m, d)
}

/// Tries the tail of the grammar (optional date, trailing whitespace, end of
/// line) and builds the headline.
fn finish_headline_exec(
    line: &[u8],
    after: usize,
    level: usize,
    version_prefix: Vec<u8>,
    version: Option<Semver>,
) -> (r: Option<Headline>)
    requires
        after <= line@.len(),
    ensures
        opt_headline_view(r) == finish_headline(
            line@,
            after as int,
            level as int,
            version_prefix@,
            opt_semver_view(version),
        ),
{
    let ws2 = skip_ws_exec(line, after);
    match date_group_exec(line, ws2) {
        Some(d) => {
            let next = if line.len() - ws2 >= 12 {
                ws2 + 12
            } else {
                line.len()
            };
            proof {
                if line@.len() - ws2 < 12 {
                    assert(date_group(line@, ws2 as int) is None);
                }
            }
            if skip_ws_exec(line, next) == line.len() {
                Some(Headline { level, version_prefix, version, date: Some(d) })
            } else {
                None
            }
        },
        None => {
            if ws2 == line.len() {
                Some(Headline { level, version_prefix, version, date: None })
            } else {
                None
            }
        },
    }
}

/// Recognizes one line as a release heading; `None` means the line is plain
/// body text — a normal outcome, not a failure.
pub fn headline(line: &[u8]) -> (r: Option<Headline>)
    ensures
        opt_headline_view(r) == parse_headline(line@),
{
    let h_end = hashes_end_exec(line, 0);
    if h_end == 0 {
        return None;
    }
    let v_start = skip_ws_exec(line, h_end);
    let token_end = skip_non_ws_exec(line, v_start);
    let has_v = v_start < line.len() && line[v_start] == 118;
    let tok_start = if has_v {
        proof {
            assert(skip_non_ws(line@, v_start as int) == skip_non_ws(line@, v_start as int + 1));
            lemma_skip_non_ws_ge(line@, v_start as int + 1);
        }
        v_start + 1
    } else {
        v_start
    };
    assert(tok_start <= token_end);
    let token = &line[tok_start..token_end];
    match parse_semver(token) {
        Some(ver) => {
            let mut prefix: Vec<u8> = Vec::new();
            if has_v {
                prefix.push(118);
                proof {
                    assert(prefix@ =~= seq![118u8]);
                }
            } else {
                proof {
                    assert(prefix@ =~= Seq::<u8>::empty());
                }
            }
            finish_headline_exec(line, token_end, h_end, prefix, Some(ver))
        },
        None => {
            if is_unreleased_at_exec(line, v_start) {
                let prefix: Vec<u8> = Vec::new();
                proof {
                    assert(prefix@ =~= Seq::<u8>::empty());
                }
                finish_headline_exec(line, v_start + 10, h_end, prefix, None)
            } else {
                None
            }
        },
    }
}

} // verus!
