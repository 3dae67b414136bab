//! The sound catalog the host application returns for a listing command:
//! the `Sound` record, its dates and durations, and the parser for the
//! XML-like listing text the reply body carries.

use vstd::prelude::*;
use vstd::slice::slice_subrange;

use crate::ascii::{ascii_bytes, bytes_eq, bytes_of, has_prefix, sub_vec};
use crate::decimal::{spec_parse_i32, spec_parse_u64, spec_parse_u8, parse_i32, parse_u64, parse_u8};

verus! {

/// A calendar date of the catalog: year, month (1 to 12) and day,
/// valid by construction.
#[derive(Debug, Clone, Copy, PartialEq, Eq, Structural)]
pub struct Date {
    pub year: i32,
    pub month: u8,
    pub day: u8,
}

/// Gregorian leap years; the sign of the year does not matter for the
/// divisibility tests.
pub open spec fn is_leap_year(year: int) -> bool {
    let y = if year < 0 {
        -year
    } else {
        year
    };
    (y % 4 == 0 && y % 100 != 0) || y % 400 == 0
}

/// How many days the given month of the given year has.
pub open spec fn days_in_month(year: int, month: int) -> int {
    if month == 2 {
        if is_leap_year(year) {
            29
        } else {
            28
        }
    } else if month == 4 || month == 6 || month == 9 || month == 11 {
        30
    } else {
        31
    }
}

/// Is this a real calendar date?
pub open spec fn valid_date(year: int, month: int, day: int) -> bool {
    1 <= month <= 12 && 1 <= day <= days_in_month(year, month)
}

impl Date {
    pub open spec fn wf(self) -> bool {
        valid_date(self.year as int, self.month as int, self.day as int)
    }

    /// The date with the given parts, if they name a real calendar date.
    pub fn from_calendar_date(year: i32, month: u8, day: u8) -> (r: Option<Date>)
        ensures
            r == if valid_date(year as int, month as int, day as int) {
                Some(Date { year, month, day })
            } else {
                None::<Date>
            },
            r matches Some(d) ==> d.wf(),
    {
        if month < 1 || month > 12 {
            return None;
        }
        let ya: i64 = if year < 0 {
            -(year as i64)
        } else {
            year as i64
        };
        let leap: bool = (ya % 4 == 0 && ya % 100 != 0) || ya % 400 == 0;
        let max_day: u8 = if month == 2 {
            if leap {
                29
            } else {
                28
            }
        } else if month == 4 || month == 6 || month == 9 || month == 11 {
            30
        } else {
            31
        };
        if day < 1 || day > max_day {
            return None;
        }
        Some(Date { year, month, day })
    }
}

/// One entry of the host application's sound catalog. All text is kept
/// as the raw bytes of the listing; the duration is in whole seconds.
#[derive(Debug, Clone, PartialEq, Eq)]
pub struct Sound {
    pub index: u64,
    pub title: Vec<u8>,
    pub url: Vec<u8>,
    pub duration: u64,
    pub artist: Option<Vec<u8>>,
    pub added_on: Date,
    pub last_played_on: Date,
    pub play_count: u64,
}

/// The mathematical image of a [`Sound`].
pub struct SoundV {
    pub index: u64,
    pub title: Seq<u8>,
    pub url: Seq<u8>,
    pub duration: u64,
    pub artist: Option<Seq<u8>>,
    pub added_on: Date,
    pub last_played_on: Date,
    pub play_count: u64,
}

impl View for Sound {
    type V = SoundV;

    open spec fn view(&self) -> SoundV {
        SoundV {
            index: self.index,
            title: self.title@,
            url: self.url@,
            duration: self.duration,
            artist: match self.artist {
                Some(a) => Some(a@),
                None => None,
            },
            added_on: self.added_on,
            last_played_on: self.last_played_on,
            play_count: self.play_count,
        }
    }
}

/// The index of the first occurrence of `b` in `s`.
pub open spec fn find_byte(s: Seq<u8>, b: u8) -> Option<int>
    decreases s.len(),
{
    if s.len() == 0 {
        None
    } else if s[0] == b {
        Some(0)
    } else {
        match find_byte(s.skip(1), b) {
            Some(j) => Some(j + 1),
            None => None,
        }
    }
}

proof fn lemma_find_byte_at(s: Seq<u8>, b: u8, i: int)
    requires
        0 <= i < s.len(),
        s[i] == b,
        forall|j: int| 0 <= j < i ==> s[j] != b,
    ensures
        find_byte(s, b) == Some(i),
    decreases i,
{
    if i > 0 {
        assert(s.skip(1)[i - 1] == b);
        assert(forall|j: int| 0 <= j < i - 1 ==> #[trigger] s.skip(1)[j] == s[j + 1] && s[j + 1]
            != b);
        lemma_find_byte_at(s.skip(1), b, i - 1);
    }
}

proof fn lemma_find_byte_none(s: Seq<u8>, b: u8)
    requires
        forall|j: int| 0 <= j < s.len() ==> s[j] != b,
    ensures
        find_byte(s, b) is None,
    decreases s.len(),
{
    if s.len() > 0 {
        assert(forall|j: int| 0 <= j < s.len() - 1 ==> #[trigger] s.skip(1)[j] == s[j + 1] && s[j
            + 1] != b);
        lemma_find_byte_none(s.skip(1), b);
    }
}

proof fn lemma_find_byte_bounds(s: Seq<u8>, b: u8)
    ensures
        find_byte(s, b) matches Some(i) ==> 0 <= i < s.len() && s[i] == b,
    decreases s.len(),
{
    if s.len() > 0 && s[0] != b {
        lemma_find_byte_bounds(s.skip(1), b);
    }
}

/// `s` cut at every occurrence of `b`: one part more than there are
/// occurrences, parts may be empty.
pub open spec fn split_byte(s: Seq<u8>, b: u8) -> Seq<Seq<u8>>
    decreases s.len(),
    via split_byte_decreases
{
    match find_byte(s, b) {
        None => seq![s],
        Some(i) => seq![s.take(i)] + split_byte(s.skip(i + 1), b),
    }
}

#[via_fn]
proof fn split_byte_decreases(s: Seq<u8>, b: u8) {
    lemma_find_byte_bounds(s, b);
}

/// Cut `s` at every occurrence of `b`.
pub fn split_byte_vec(s: &[u8], b: u8) -> (parts: Vec<Vec<u8>>)
    ensures
        parts@.map_values(|p: Vec<u8>| p@) == split_byte(s@, b),
    decreases s@.len(),
{
    let n: usize = s.len();
    let mut i: usize = 0;
    while i < n
        invariant
            i <= n == s@.len(),
            forall|j: int| 0 <= j < i ==> s@[j] != b,
        decreases n - i,
    {
        if s[i] == b {
            proof {
                lemma_find_byte_at(s@, b, i as int);
            }
            let head = sub_vec(s, 0, i);
            let tail = slice_subrange(s, i + 1, n);
            proof {
                assert(tail@ =~= s@.skip(i as int + 1));
            }
            let mut rest = split_byte_vec(tail, b);
            let mut parts: Vec<Vec<u8>> = Vec::new();
            parts.push(head);
            parts.append(&mut rest);
            proof {
                assert(parts@.map_values(|p: Vec<u8>| p@) =~= split_byte(s@, b));
            }
            return parts;
        }
        i += 1;
    }
    proof {
        lemma_find_byte_none(s@, b);
    }
    let whole = sub_vec(s, 0, n);
    proof {
        assert(whole@ =~= s@);
    }
    let mut parts: Vec<Vec<u8>> = Vec::new();
    parts.push(whole);
    proof {
        assert(parts@.map_values(|p: Vec<u8>| p@) =~= split_byte(s@, b));
    }
    parts
}

/// The unsigned value of a part, zero when it does not parse.
pub open spec fn parse_u64_or_zero(p: Seq<u8>) -> u64 {
    match spec_parse_u64(p) {
        Some(v) => v,
        None => 0,
    }
}

/// As [`parse_u64_or_zero`] for values that must fit in `u8`.
pub open spec fn parse_u8_or_zero(p: Seq<u8>) -> u8 {
    match spec_parse_u8(p) {
        Some(v) => v,
        None => 0,
    }
}

/// The signed value of a part, zero when it does not parse.
pub open spec fn parse_i32_or_zero(p: Seq<u8>) -> i32 {
    match spec_parse_i32(p) {
        Some(v) => v,
        None => 0,
    }
}

/// `v` capped at the largest `u64`.
pub open spec fn capped_u64(v: int) -> u64 {
    if v <= u64::MAX {
        v as u64
    } else {
        u64::MAX
    }
}

/// The seconds a duration text names: the colon-separated parts are,
/// from the right, seconds, minutes and hours; a missing or unreadable
/// part counts as zero, and anything before the hours is ignored.
pub open spec fn spec_duration_secs(s: Seq<u8>) -> u64 {
    let parts = split_byte(s, 58);
    let secs = parse_u64_or_zero(parts.last());
    let mins = if parts.len() >= 2 {
        parse_u64_or_zero(parts[parts.len() - 2])
    } else {
        0
    };
    let hours = if parts.len() >= 3 {
        parse_u64_or_zero(parts[parts.len() - 3])
    } else {
        0
    };
    capped_u64(hours * 3600 + mins * 60 + secs)
}

/// Read a duration text such as `0:02` or `1:30:00` into whole seconds.
pub fn parse_duration_secs(s: &[u8]) -> (r: u64)
    ensures
        r == spec_duration_secs(s@),
{
    let parts = split_byte_vec(s, 58);
    let k = parts.len();
    proof {
        assert(split_byte(s@, 58).len() >= 1);
        assert(parts@.map_values(|p: Vec<u8>| p@).len() == k);
    }
    let secs = match parse_u64(parts[k - 1].as_slice()) {
        Some(v) => v,
        None => 0,
    };
    let mins = if k >= 2 {
        match parse_u64(parts[k - 2].as_slice()) {
            Some(v) => v,
            None => 0,
        }
    } else {
        0
    };
    let hours = if k >= 3 {
        match parse_u64(parts[k - 3].as_slice()) {
            Some(v) => v,
            None => 0,
        }
    } else {
        0
    };
    let total: u128 = hours as u128 * 3600 + mins as u128 * 60 + secs as u128;
    proof {
        let ps = split_byte(s@, 58);
        assert(parts@.map_values(|p: Vec<u8>| p@)[k - 1] == ps.last());
        if k >= 2 {
            assert(parts@.map_values(|p: Vec<u8>| p@)[k - 2] == ps[ps.len() - 2]);
        }
        if k >= 3 {
            assert(parts@.map_values(|p: Vec<u8>| p@)[k - 3] == ps[ps.len() - 3]);
        }
    }
    if total <= u64::MAX as u128 {
        total as u64
    } else {
        u64::MAX
    }
}

/// The date a date text names: dash-separated year, month and day, a
/// missing or unreadable part counting as zero; `None` when the parts
/// name no real calendar date.
pub open spec fn spec_parse_date(s: Seq<u8>) -> Option<Date> {
    let parts = split_byte(s, 45);
    let year = parse_i32_or_zero(parts[0]);
    let month = if parts.len() >= 2 {
        parse_u8_or_zero(parts[1])
    } else {
        0
    };
    let day = if parts.len() >= 3 {
        parse_u8_or_zero(parts[2])
    } else {
        0
    };
    if valid_date(year as int, month as int, day as int) {
        Some(Date { year, month, day })
    } else {
        None
    }
}

/// Read a date text such as `2022-11-27`.
pub fn parse_date(s: &[u8]) -> (r: Option<Date>)
    ensures
        r == spec_parse_date(s@),
        r matches Some(d) ==> d.wf(),
{
    let parts = split_byte_vec(s, 45);
    let k = parts.len();
    proof {
        assert(split_byte(s@, 45).len() >= 1);
        assert(parts@.map_values(|p: Vec<u8>| p@).len() == k);
        assert(parts@.map_values(|p: Vec<u8>| p@)[0] == split_byte(s@, 45)[0]);
        if k >= 2 {
            assert(parts@.map_values(|p: Vec<u8>| p@)[1] == split_byte(s@, 45)[1]);
        }
        if k >= 3 {
            assert(parts@.map_values(|p: Vec<u8>| p@)[2] == split_byte(s@, 45)[2]);
        }
    }
    let year = match parse_i32(parts[0].as_slice()) {
        Some(v) => v,
        None => 0,
    };
    let month = if k >= 2 {
        match parse_u8(parts[1].as_slice()) {
            Some(v) => v,
            None => 0,
        }
    } else {
        0
    };
    let day = if k >= 3 {
        match parse_u8(parts[2].as_slice()) {
            Some(v) => v,
            None => 0,
        }
    } else {
        0
    };
    Date::from_calendar_date(year, month, day)
}

/// An empty text stands for no value at all.
pub open spec fn spec_empty_as_none(v: Seq<u8>) -> Option<Seq<u8>> {
    if v.len() == 0 {
        None
    } else {
        Some(v)
    }
}

/// Turn an empty text into `None`.
pub fn empty_as_none(v: Vec<u8>) -> (r: Option<Vec<u8>>)
    ensures
        r matches Some(w) ==> spec_empty_as_none(v@) == Some(w@),
        r is None <==> spec_empty_as_none(v@) is None,
{
    if v.len() == 0 {
        None
    } else {
        Some(v)
    }
}

/// Find `b` in a slice.
fn find_byte_vec(s: &[u8], b: u8) -> (r: Option<usize>)
    ensures
        match r {
            Some(k) => find_byte(s@, b) == Some(k as int),
            None => find_byte(s@, b) is None,
        },
{
    let n: usize = s.len();
    let mut i: usize = 0;
    while i < n
        invariant
            i <= n == s@.len(),
            forall|j: int| 0 <= j < i ==> s@[j] != b,
        decreases n - i,
    {
        if s[i] == b {
            proof {
                lemma_find_byte_at(s@, b, i as int);
            }
            return Some(i);
        }
        i += 1;
    }
    proof {
        lemma_find_byte_none(s@, b);
    }
    None
}

/// Does `pat` occur in `s` starting at position `k`?
pub open spec fn occurs_at(s: Seq<u8>, pat: Seq<u8>, k: int) -> bool {
    0 <= k && k + pat.len() <= s.len() && s.subrange(k, k + pat.len() as int) == pat
}

/// The first position where `pat` occurs in `s`.
pub open spec fn find_sub(s: Seq<u8>, pat: Seq<u8>) -> Option<int>
    decreases s.len(),
{
    if s.len() < pat.len() {
        None
    } else if s.take(pat.len() as int) == pat {
        Some(0)
    } else if s.len() == 0 {
        None
    } else {
        match find_sub(s.skip(1), pat) {
            Some(j) => Some(j + 1),
            None => None,
        }
    }
}

proof fn lemma_find_sub_bounds(s: Seq<u8>, pat: Seq<u8>)
    ensures
        find_sub(s, pat) matches Some(k) ==> 0 <= k && k + pat.len() <= s.len() && occurs_at(
            s,
            pat,
            k,
        ),
    decreases s.len(),
{
    if s.len() >= pat.len() && s.take(pat.len() as int) != pat && s.len() > 0 {
        lemma_find_sub_bounds(s.skip(1), pat);
        match find_sub(s.skip(1), pat) {
            Some(j) => {
                assert(s.skip(1).subrange(j, j + pat.len() as int) =~= s.subrange(
                    j + 1,
                    j + 1 + pat.len() as int,
                ));
            },
            None => {},
        }
    } else {
        if s.len() >= pat.len() && s.take(pat.len() as int) == pat {
            assert(s.subrange(0, pat.len() as int) =~= s.take(pat.len() as int));
        }
    }
}

proof fn lemma_find_sub_at(s: Seq<u8>, pat: Seq<u8>, k: int)
    requires
        occurs_at(s, pat, k),
        forall|j: int| 0 <= j < k ==> !occurs_at(s, pat, j),
    ensures
        find_sub(s, pat) == Some(k),
    decreases k,
{
    if k == 0 {
        assert(s.take(pat.len() as int) =~= s.subrange(0, pat.len() as int));
    } else {
        assert(!occurs_at(s, pat, 0));
        assert(s.take(pat.len() as int) =~= s.subrange(0, pat.len() as int));
        assert(s.take(pat.len() as int) != pat);
        assert(occurs_at(s.skip(1), pat, k - 1)) by {
            assert(s.skip(1).subrange(k - 1, k - 1 + pat.len() as int) =~= s.subrange(
                k,
                k + pat.len() as int,
            ));
        }
        assert(forall|j: int| 0 <= j < k - 1 ==> !occurs_at(s.skip(1), pat, j)) by {
            assert forall|j: int| 0 <= j < k - 1 implies !occurs_at(s.skip(1), pat, j) by {
                assert(!occurs_at(s, pat, j + 1));
                if 0 <= j && j + pat.len() <= s.skip(1).len() {
                    assert(s.skip(1).subrange(j, j + pat.len() as int) =~= s.subrange(
                        j + 1,
                        j + 1 + pat.len() as int,
                    ));
                }
            }
        }
        lemma_find_sub_at(s.skip(1), pat, k - 1);
    }
}

proof fn lemma_find_sub_none(s: Seq<u8>, pat: Seq<u8>)
    requires
        forall|j: int| 0 <= j ==> !occurs_at(s, pat, j),
    ensures
        find_sub(s, pat) is None,
    decreases s.len(),
{
    if s.len() >= pat.len() {
        assert(!occurs_at(s, pat, 0));
        assert(s.take(pat.len() as int) =~= s.subrange(0, pat.len() as int));
        if s.len() > 0 {
            assert(forall|j: int| 0 <= j ==> !occurs_at(s.skip(1), pat, j)) by {
                assert forall|j: int| 0 <= j implies !occurs_at(s.skip(1), pat, j) by {
                    assert(!occurs_at(s, pat, j + 1));
                    if j + pat.len() <= s.skip(1).len() {
                        assert(s.skip(1).subrange(j, j + pat.len() as int) =~= s.subrange(
                            j + 1,
                            j + 1 + pat.len() as int,
                        ));
                    }
                }
            }
            lemma_find_sub_none(s.skip(1), pat);
        }
    }
}

/// Find the first occurrence of `pat` in `s`.
fn find_sub_vec(s: &[u8], pat: &[u8]) -> (r: Option<usize>)
    requires
        pat@.len() >= 1,
    ensures
        match r {
            Some(k) => find_sub(s@, pat@) == Some(k as int),
            None => find_sub(s@, pat@) is None,
        },
{
    let n: usize = s.len();
    let m: usize = pat.len();
    if m > n {
        proof {
            lemma_find_sub_none(s@, pat@);
        }
        return None;
    }
    let mut j: usize = 0;
    while j <= n - m
        invariant
            1 <= m <= n == s@.len(),
            m == pat@.len(),
            j <= n - m + 1,
            forall|k: int| 0 <= k < j ==> !occurs_at(s@, pat@, k),
        decreases n - m + 1 - j,
    {
        let window = slice_subrange(s, j, n);
        if has_prefix(window, pat) {
            proof {
                assert(s@.subrange(j as int, j + m as int) =~= s@.skip(j as int).take(m as int));
                assert(occurs_at(s@, pat@, j as int));
                lemma_find_sub_at(s@, pat@, j as int);
            }
            return Some(j);
        }
        proof {
            assert(s@.subrange(j as int, j + m as int) =~= s@.skip(j as int).take(m as int));
            assert(!occurs_at(s@, pat@, j as int));
        }
        j += 1;
    }
    proof {
        assert forall|k: int| 0 <= k implies !occurs_at(s@, pat@, k) by {
            if k < j {
            } else {
                assert(k + pat@.len() > s@.len());
            }
        }
        lemma_find_sub_none(s@, pat@);
    }
    None
}

/// The raw attribute values of one catalog element, each present or not.
pub struct AttrsV {
    pub index: Option<Seq<u8>>,
    pub url: Option<Seq<u8>>,
    pub artist: Option<Seq<u8>>,
    pub title: Option<Seq<u8>>,
    pub duration: Option<Seq<u8>>,
    pub added_on: Option<Seq<u8>>,
    pub last_played_on: Option<Seq<u8>>,
    pub play_count: Option<Seq<u8>>,
}

/// No attribute seen yet.
pub open spec fn empty_attrs() -> AttrsV {
    AttrsV {
        index: None,
        url: None,
        artist: None,
        title: None,
        duration: None,
        added_on: None,
        last_played_on: None,
        play_count: None,
    }
}

/// Record one attribute; names outside the catalog schema are ignored.
pub open spec fn spec_set_attr(acc: AttrsV, name: Seq<u8>, value: Seq<u8>) -> AttrsV {
    if name == bytes_of("index"@) {
        AttrsV { index: Some(value), ..acc }
    } else if name == bytes_of("url"@) {
        AttrsV { url: Some(value), ..acc }
    } else if name == bytes_of("artist"@) {
        AttrsV { artist: Some(value), ..acc }
    } else if name == bytes_of("title"@) {
        AttrsV { title: Some(value), ..acc }
    } else if name == bytes_of("duration"@) {
        AttrsV { duration: Some(value), ..acc }
    } else if name == bytes_of("addedOn"@) {
        AttrsV { added_on: Some(value), ..acc }
    } else if name == bytes_of("lastPlayedOn"@) {
        AttrsV { last_played_on: Some(value), ..acc }
    } else if name == bytes_of("playCount"@) {
        AttrsV { play_count: Some(value), ..acc }
    } else {
        acc
    }
}

/// Is `b` one of the blanks allowed between attributes?
pub open spec fn is_blank(b: u8) -> bool {
    b == 32 || b == 9 || b == 10 || b == 13
}

/// Parse an attribute list from position `i` up to the closing `/>` (or
/// a bare `>`): `name="value"` pairs separated by blanks. `None` means
/// the element is malformed or unterminated.
pub open spec fn spec_attrs(s: Seq<u8>, i: int, acc: AttrsV) -> Option<(AttrsV, int)>
    decreases s.len() - i,
    via spec_attrs_decreases
{
    if i < 0 || i >= s.len() {
        None
    } else if is_blank(s[i]) {
        spec_attrs(s, i + 1, acc)
    } else if s[i] == 47 && i + 1 < s.len() && s[i + 1] == 62 {
        Some((acc, i + 2))
    } else if s[i] == 62 {
        Some((acc, i + 1))
    } else {
        match find_byte(s.skip(i), 61) {
            None => None,
            Some(dn) => {
                let name = s.subrange(i, i + dn);
                if i + dn + 1 >= s.len() || s[i + dn + 1] != 34 {
                    None
                } else {
                    match find_byte(s.skip(i + dn + 2), 34) {
                        None => None,
                        Some(dv) => {
                            let value = s.subrange(i + dn + 2, i + dn + 2 + dv);
                            spec_attrs(s, i + dn + 2 + dv + 1, spec_set_attr(acc, name, value))
                        },
                    }
                }
            },
        }
    }
}

#[via_fn]
proof fn spec_attrs_decreases(s: Seq<u8>, i: int, acc: AttrsV) {
    if 0 <= i < s.len() {
        lemma_find_byte_bounds(s.skip(i), 61);
        match find_byte(s.skip(i), 61) {
            Some(dn) => {
                if i + dn + 2 <= s.len() {
                    lemma_find_byte_bounds(s.skip(i + dn + 2), 34);
                }
            },
            None => {},
        }
    }
}

proof fn lemma_spec_attrs_range(s: Seq<u8>, i: int, acc: AttrsV)
    ensures
        spec_attrs(s, i, acc) matches Some(p) ==> i < p.1 <= s.len(),
    decreases s.len() - i,
{
    if 0 <= i < s.len() {
        if is_blank(s[i]) {
            lemma_spec_attrs_range(s, i + 1, acc);
        } else if s[i] == 47 && i + 1 < s.len() && s[i + 1] == 62 {
        } else if s[i] == 62 {
        } else {
            lemma_find_byte_bounds(s.skip(i), 61);
            match find_byte(s.skip(i), 61) {
                Some(dn) => {
                    if i + dn + 1 < s.len() && s[i + dn + 1] == 34 {
                        lemma_find_byte_bounds(s.skip(i + dn + 2), 34);
                        match find_byte(s.skip(i + dn + 2), 34) {
                            Some(dv) => {
                                let name = s.subrange(i, i + dn);
                                let value = s.subrange(i + dn + 2, i + dn + 2 + dv);
                                lemma_spec_attrs_range(
                                    s,
                                    i + dn + 2 + dv + 1,
                                    spec_set_attr(acc, name, value),
                                );
                            },
                            None => {},
                        }
                    }
                },
                None => {},
            }
        }
    }
}

/// The raw attribute values of one element, as read.
struct Attrs {
    index: Option<Vec<u8>>,
    url: Option<Vec<u8>>,
    artist: Option<Vec<u8>>,
    title: Option<Vec<u8>>,
    duration: Option<Vec<u8>>,
    added_on: Option<Vec<u8>>,
    last_played_on: Option<Vec<u8>>,
    play_count: Option<Vec<u8>>,
}

spec fn opt_view(v: Option<Vec<u8>>) -> Option<Seq<u8>> {
    match v {
        Some(x) => Some(x@),
        None => None,
    }
}

impl Attrs {
    spec fn view(self) -> AttrsV {
        AttrsV {
            index: opt_view(self.index),
            url: opt_view(self.url),
            artist: opt_view(self.artist),
            title: opt_view(self.title),
            duration: opt_view(self.duration),
            added_on: opt_view(self.added_on),
            last_played_on: opt_view(self.last_played_on),
            play_count: opt_view(self.play_count),
        }
    }

    fn empty() -> (r: Attrs)
        ensures
            r.view() == empty_attrs(),
    {
        Attrs {
            index: None,
            url: None,
            artist: None,
            title: None,
            duration: None,
            added_on: None,
            last_played_on: None,
            play_count: None,
        }
    }
}

/// Record one attribute by name.
fn set_attr(acc: Attrs, name: &[u8], value: Vec<u8>) -> (r: Attrs)
    ensures
        r.view() == spec_set_attr(acc.view(), name@, value@),
{
    let n_index = "index";
    let n_url = "url";
    let n_artist = "artist";
    let n_title = "title";
    let n_duration = "duration";
    let n_added_on = "addedOn";
    let n_last_played_on = "lastPlayedOn";
    let n_play_count = "playCount";
    proof {
        reveal_strlit("index");
        reveal_strlit("url");
        reveal_strlit("artist");
        reveal_strlit("title");
        reveal_strlit("duration");
        reveal_strlit("addedOn");
        reveal_strlit("lastPlayedOn");
        reveal_strlit("playCount");
        assert(n_index.is_ascii());
        assert(n_url.is_ascii());
        assert(n_artist.is_ascii());
        assert(n_title.is_ascii());
        assert(n_duration.is_ascii());
        assert(n_added_on.is_ascii());
        assert(n_last_played_on.is_ascii());
        assert(n_play_count.is_ascii());
    }
    if bytes_eq(name, ascii_bytes(n_index).as_slice()) {
        Attrs { index: Some(value), ..acc }
    } else if bytes_eq(name, ascii_bytes(n_url).as_slice()) {
        Attrs { url: Some(value), ..acc }
    } else if bytes_eq(name, ascii_bytes(n_artist).as_slice()) {
        Attrs { artist: Some(value), ..acc }
    } else if bytes_eq(name, ascii_bytes(n_title).as_slice()) {
        Attrs { title: Some(value), ..acc }
    } else if bytes_eq(name, ascii_bytes(n_duration).as_slice()) {
        Attrs { duration: Some(value), ..acc }
    } else if bytes_eq(name, ascii_bytes(n_added_on).as_slice()) {
        Attrs { added_on: Some(value), ..acc }
    } else if bytes_eq(name, ascii_bytes(n_last_played_on).as_slice()) {
        Attrs { last_played_on: Some(value), ..acc }
    } else if bytes_eq(name, ascii_bytes(n_play_count).as_slice()) {
        Attrs { play_count: Some(value), ..acc }
    } else {
        acc
    }
}

/// Parse an attribute list from position `i`.
fn parse_attrs(s: &[u8], i: usize, acc: Attrs) -> (r: Option<(Attrs, usize)>)
    requires
        i <= s@.len(),
    ensures
        match r {
            Some(p) => spec_attrs(s@, i as int, acc.view()) == Some((p.0.view(), p.1 as int)) && i
                < p.1 <= s@.len(),
            None => spec_attrs(s@, i as int, acc.view()) is None,
        },
    decreases s@.len() - i,
{
    if i >= s.len() {
        return None;
    }
    let c = s[i];
    if c == 32 || c == 9 || c == 10 || c == 13 {
        return parse_attrs(s, i + 1, acc);
    }
    if c == 47 {
        if i + 1 < s.len() && s[i + 1] == 62 {
            return Some((acc, i + 2));
        }
    }
    if c == 62 {
        return Some((acc, i + 1));
    }
    let tail_name = slice_subrange(s, i, s.len());
    proof {
        assert(tail_name@ =~= s@.skip(i as int));
    }
    match find_byte_vec(tail_name, 61) {
        None => {
            return None;
        },
        Some(dn) => {
            proof {
                lemma_find_byte_bounds(s@.skip(i as int), 61);
            }
            let name = sub_vec(s, i, i + dn);
            proof {
                assert(name@ =~= s@.subrange(i as int, i + dn as int));
            }
            if i + dn + 1 >= s.len() {
                return None;
            }
            if s[i + dn + 1] != 34 {
                return None;
            }
            let tail_value = slice_subrange(s, i + dn + 2, s.len());
            proof {
                assert(tail_value@ =~= s@.skip(i + dn + 2 as int));
            }
            match find_byte_vec(tail_value, 34) {
                None => {
                    return None;
                },
                Some(dv) => {
                    proof {
                        lemma_find_byte_bounds(s@.skip(i + dn + 2 as int), 34);
                    }
                    let value = sub_vec(s, i + dn + 2, i + dn + 2 + dv);
                    proof {
                        assert(value@ =~= s@.subrange(i + dn + 2 as int, i + dn + 2 + dv as int));
                    }
                    let acc2 = set_attr(acc, name.as_slice(), value);
                    return parse_attrs(s, i + dn + 2 + dv + 1, acc2);
                },
            }
        },
    }
}

/// The sound an attribute set describes: the index and play count must
/// be unsigned numbers, the two dates must be real dates, and every
/// schema attribute must be present; the duration and an empty artist
/// are read leniently, as the catalog writes them.
pub open spec fn spec_sound_of_attrs(a: AttrsV) -> Option<SoundV> {
    match a.index {
        None => None,
        Some(ib) => match spec_parse_u64(ib) {
            None => None,
            Some(index) => match a.url {
                None => None,
                Some(url) => match a.title {
                    None => None,
                    Some(title) => match a.artist {
                        None => None,
                        Some(ab) => match a.duration {
                            None => None,
                            Some(db) => match a.added_on {
                                None => None,
                                Some(aob) => match spec_parse_date(aob) {
                                    None => None,
                                    Some(added_on) => match a.last_played_on {
                                        None => None,
                                        Some(lpb) => match spec_parse_date(lpb) {
                                            None => None,
                                            Some(last_played_on) => match a.play_count {
                                                None => None,
                                                Some(pcb) => match spec_parse_u64(pcb) {
                                                    None => None,
                                                    Some(play_count) => Some(
                                                        SoundV {
                                                            index,
                                                            title,
                                                            url,
                                                            duration: spec_duration_secs(db),
                                                            artist: spec_empty_as_none(ab),
                                                            added_on,
                                                            last_played_on,
                                                            play_count,
                                                        },
                                                    ),
                                                },
                                            },
                                        },
                                    },
                                },
                            },
                        },
                    },
                },
            },
        },
    }
}

/// Build the sound an attribute set describes.
fn sound_of_attrs(a: Attrs) -> (r: Option<Sound>)
    ensures
        match r {
            Some(snd) => spec_sound_of_attrs(a.view()) == Some(snd@),
            None => spec_sound_of_attrs(a.view()) is None,
        },
{
    let Attrs { index, url, artist, title, duration, added_on, last_played_on, play_count } = a;
    let index = match index {
        Some(ib) => match parse_u64(ib.as_slice()) {
            Some(v) => v,
            None => {
                return None;
            },
        },
        None => {
            return None;
        },
    };
    let url = match url {
        Some(u) => u,
        None => {
            return None;
        },
    };
    let title = match title {
        Some(t) => t,
        None => {
            return None;
        },
    };
    let artist = match artist {
        Some(ab) => empty_as_none(ab),
        None => {
            return None;
        },
    };
    let duration = match duration {
        Some(db) => parse_duration_secs(db.as_slice()),
        None => {
            return None;
        },
    };
    let added_on = match added_on {
        Some(aob) => match parse_date(aob.as_slice()) {
            Some(d) => d,
            None => {
                return None;
            },
        },
        None => {
            return None;
        },
    };
    let last_played_on = match last_played_on {
        Some(lpb) => match parse_date(lpb.as_slice()) {
            Some(d) => d,
            None => {
                return None;
            },
        },
        None => {
            return None;
        },
    };
    let play_count = match play_count {
        Some(pcb) => match parse_u64(pcb.as_slice()) {
            Some(v) => v,
            None => {
                return None;
            },
        },
        None => {
            return None;
        },
    };
    Some(
        Sound { index, title, url, duration, artist, added_on, last_played_on, play_count },
    )
}

/// The opening text of a catalog element.
pub open spec fn sound_open_pat() -> Seq<u8> {
    bytes_of("<Sound "@)
}

/// The sounds listed from position `i` on: each occurrence of the
/// element opening is parsed in turn; a malformed element fails the
/// whole listing, text between elements is ignored.
pub open spec fn spec_sounds_from(s: Seq<u8>, i: int) -> Option<Seq<SoundV>>
    decreases s.len() - i,
    via spec_sounds_from_decreases
{
    if i < 0 || i > s.len() {
        None
    } else {
        match find_sub(s.skip(i), sound_open_pat()) {
            None => Some(Seq::<SoundV>::empty()),
            Some(d) => {
                let j = i + d + sound_open_pat().len() as int;
                match spec_attrs(s, j, empty_attrs()) {
                    None => None,
                    Some(p) => match spec_sound_of_attrs(p.0) {
                        None => None,
                        Some(snd) => match spec_sounds_from(s, p.1) {
                            None => None,
                            Some(rest) => Some(seq![snd] + rest),
                        },
                    },
                }
            },
        }
    }
}

#[via_fn]
proof fn spec_sounds_from_decreases(s: Seq<u8>, i: int) {
    if 0 <= i <= s.len() {
        lemma_find_sub_bounds(s.skip(i), sound_open_pat());
        match find_sub(s.skip(i), sound_open_pat()) {
            Some(d) => {
                let j = i + d + sound_open_pat().len() as int;
                lemma_spec_attrs_range(s, j, empty_attrs());
            },
            None => {},
        }
    }
}

/// The catalog a listing text describes, when it is well formed.
pub open spec fn spec_parse_soundlist(s: Seq<u8>) -> Option<Seq<SoundV>> {
    spec_sounds_from(s, 0)
}

/// Parse the sounds from position `i` on.
fn parse_sounds_from(s: &[u8], i: usize) -> (r: Option<Vec<Sound>>)
    requires
        i <= s@.len(),
    ensures
        match r {
            Some(v) => spec_sounds_from(s@, i as int) == Some(
                v@.map_values(|x: Sound| x@),
            ),
            None => spec_sounds_from(s@, i as int) is None,
        },
    decreases s@.len() - i,
{
    let pat_lit = "<Sound ";
    proof {
        reveal_strlit("<Sound ");
        assert(pat_lit.is_ascii());
    }
    let pat = ascii_bytes(pat_lit);
    let tail = slice_subrange(s, i, s.len());
    proof {
        assert(tail@ =~= s@.skip(i as int));
    }
    match find_sub_vec(tail, pat.as_slice()) {
        None => {
            let out: Vec<Sound> = Vec::new();
            proof {
                assert(out@.map_values(|x: Sound| x@) =~= Seq::<SoundV>::empty());
            }
            Some(out)
        },
        Some(d) => {
            proof {
                lemma_find_sub_bounds(s@.skip(i as int), sound_open_pat());
                assert(sound_open_pat().len() == 7);
            }
            let j = i + d + 7;
            match parse_attrs(s, j, Attrs::empty()) {
                None => None,
                Some((a, end)) => match sound_of_attrs(a) {
                    None => None,
                    Some(snd) => match parse_sounds_from(s, end) {
                        None => None,
                        Some(rest) => {
                            let mut rest = rest;
                            let ghost rest_view = rest@.map_values(|x: Sound| x@);
                            let mut out: Vec<Sound> = Vec::new();
                            out.push(snd);
                            out.append(&mut rest);
                            proof {
                                assert(out@.map_values(|x: Sound| x@) =~= seq![snd@] + rest_view);
                            }
                            Some(out)
                        },
                    },
                },
            }
        },
    }
}

/// The listing reply could not be read as a catalog.
#[derive(Debug, Clone, Copy, PartialEq, Eq, Structural)]
pub struct ParseError;

/// The catalog as listed by the host application.
#[derive(Debug, Clone, PartialEq, Eq)]
pub struct SoundList {
    pub sounds: Vec<Sound>,
}

impl SoundList {
    /// Read a listing text into the catalog it describes.
    pub fn from_str(raw: &[u8]) -> (r: Result<SoundList, ParseError>)
        ensures
            match r {
                Ok(sl) => spec_parse_soundlist(raw@) == Some(sl.sounds@.map_values(|x: Sound| x@)),
                Err(_) => spec_parse_soundlist(raw@) is None,
            },
    {
        match parse_sounds_from(raw, 0) {
            Some(sounds) => Ok(SoundList { sounds }),
            None => Err(ParseError),
        }
    }
}

} // verus!
