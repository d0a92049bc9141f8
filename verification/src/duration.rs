//! Duration parsing: shorthand (`30s`, `5m`, `1h`, `2d`) and a restricted
//! ISO-8601 form (`PT30S`, `P1DT2H30M15S`). The result counts whole seconds.

use vstd::prelude::*;

use crate::error::ParseError;
use crate::error::ParseErrorKind;

verus! {

/// A non-negative span of time in whole seconds.
#[derive(Clone, Copy, Debug, PartialEq, Eq, Structural)]
pub struct Duration {
    /// The span, in seconds.
    pub secs: u64,
}

/// Whether `c` is a decimal digit.
pub open spec fn is_digit(c: char) -> bool {
    '0' <= c && c <= '9'
}

/// The value of a digit character; other characters count as zero.
pub open spec fn digit_val(c: char) -> int {
    if is_digit(c) {
        c as int - 48
    } else {
        0
    }
}

/// Whether `s` is one or more decimal digits.
pub open spec fn all_digits(s: Seq<char>) -> bool {
    s.len() > 0 && forall|i: int| 0 <= i < s.len() ==> is_digit(#[trigger] s[i])
}

/// The number the digits of `s` denote, most significant first.
pub open spec fn digits_val(s: Seq<char>) -> int
    decreases s.len(),
{
    if s.len() == 0 {
        0
    } else {
        digits_val(s.drop_last()) * 10 + digit_val(s.last())
    }
}

/// A digit string's value is non-negative.
pub proof fn lemma_digits_val_nonneg(s: Seq<char>)
    ensures
        digits_val(s) >= 0,
    decreases s.len(),
{
    if s.len() > 0 {
        lemma_digits_val_nonneg(s.drop_last());
    }
}

/// Extending a digit string never lowers its value.
pub proof fn lemma_digits_val_prefix(s: Seq<char>, k: int)
    requires
        0 <= k <= s.len(),
    ensures
        digits_val(s) >= digits_val(s.take(k)),
    decreases s.len() - k,
{
    if k == s.len() {
        assert(s.take(k) =~= s);
    } else {
        lemma_digits_val_prefix(s.drop_last(), k);
        assert(s.drop_last().take(k) =~= s.take(k));
        lemma_digits_val_nonneg(s.drop_last());
    }
}

/// Seconds per shorthand unit letter, if the letter is one.
pub open spec fn unit_secs(c: char) -> Option<int> {
    if c == 's' {
        Some(1int)
    } else if c == 'm' {
        Some(60int)
    } else if c == 'h' {
        Some(3600int)
    } else if c == 'd' {
        Some(86400int)
    } else {
        None
    }
}

/// The seconds a shorthand duration string denotes: digits followed by one
/// unit letter. `None` is a malformed string.
pub open spec fn shorthand_secs(s: Seq<char>) -> Option<int> {
    if s.len() >= 2 && all_digits(s.drop_last()) {
        match unit_secs(s.last()) {
            Some(k) => Some(digits_val(s.drop_last()) * k),
            None => None,
        }
    } else {
        None
    }
}

/// First index of `c` in `s`, or -1.
pub open spec fn find_char(s: Seq<char>, c: char) -> int
    decreases s.len(),
{
    if s.len() == 0 {
        -1
    } else if s[0] == c {
        0
    } else {
        let r = find_char(s.drop_first(), c);
        if r < 0 {
            -1
        } else {
            r + 1
        }
    }
}

/// What `find_char` finds: the first occurrence, or none at all.
pub proof fn lemma_find_char(s: Seq<char>, c: char)
    ensures
        find_char(s, c) == -1 ==> forall|i: int| 0 <= i < s.len() ==> s[i] != c,
        find_char(s, c) >= 0 ==> {
            &&& find_char(s, c) < s.len()
            &&& s[find_char(s, c)] == c
            &&& forall|i: int| 0 <= i < find_char(s, c) ==> s[i] != c
        },
    decreases s.len(),
{
    if s.len() > 0 && s[0] != c {
        let rest = s.drop_first();
        lemma_find_char(rest, c);
        assert(forall|i: int| 0 <= i < rest.len() ==> rest[i] == s[i + 1]);
        let r = find_char(rest, c);
        if r < 0 {
            assert(forall|i: int| 1 <= i < s.len() ==> s[i] == rest[i - 1]);
        } else {
            assert(find_char(s, c) == r + 1);
            assert(s[r + 1] == rest[r]);
            assert(forall|i: int| 1 <= i < r + 1 ==> s[i] == rest[i - 1]);
        }
    }
}

/// The seconds one component of an ISO duration contributes: the digits
/// before the first occurrence of `letter`, times `mult`, plus what remains
/// after the letter. `None` when the digits are malformed.
pub open spec fn iso_component(time: Seq<char>, letter: char, mult: int) -> Option<(int, Seq<char>)> {
    let idx = find_char(time, letter);
    if idx < 0 {
        Some((0int, time))
    } else if all_digits(time.take(idx)) {
        Some((digits_val(time.take(idx)) * mult, time.skip(idx + 1)))
    } else {
        None
    }
}

/// The seconds the time part (after `T`) of an ISO duration denotes.
pub open spec fn iso_time_secs(time: Seq<char>) -> Option<int> {
    if time.len() == 0 {
        None
    } else {
        match iso_component(time, 'H', 3600) {
            Some((h, rem1)) => match iso_component(rem1, 'M', 60) {
                Some((m, rem2)) => match iso_component(rem2, 'S', 1) {
                    Some((sec, rem3)) => if rem3.len() == 0 {
                        Some(h + m + sec)
                    } else {
                        None
                    },
                    None => None,
                },
                None => None,
            },
            None => None,
        }
    }
}

/// The seconds an ISO duration string (starting with `P`) denotes.
pub open spec fn iso_secs(s: Seq<char>) -> Option<int> {
    let rest = s.drop_first();
    let ti = find_char(rest, 'T');
    let date = if ti >= 0 {
        rest.take(ti)
    } else {
        rest
    };
    let days = if date.len() == 0 {
        Some(0int)
    } else if date.last() == 'D' && all_digits(date.drop_last()) {
        Some(digits_val(date.drop_last()) * 86400)
    } else {
        None
    };
    match days {
        Some(d) => if ti >= 0 {
            match iso_time_secs(rest.skip(ti + 1)) {
                Some(t) => Some(d + t),
                None => None,
            }
        } else if date.len() == 0 {
            None
        } else {
            Some(d)
        },
        None => None,
    }
}

/// The seconds a duration string denotes under either grammar, or `None` for
/// a malformed string.
pub open spec fn duration_secs(s: Seq<char>) -> Option<int> {
    if s.len() == 0 {
        None
    } else if s[0] == 'P' {
        iso_secs(s)
    } else {
        shorthand_secs(s)
    }
}

/// Whether `c` is a decimal digit (executable form).
pub fn digit_char_check(c: char) -> (r: bool)
    ensures
        r == is_digit(c),
{
    '0' <= c && c <= '9'
}

/// Reads the digits of `cs[lo..hi]` as a number. `None` when the range is
/// not all digits or its value does not fit.
#[verifier::loop_isolation(false)]
pub fn scan_digits(cs: &Vec<char>, lo: usize, hi: usize) -> (r: Option<u64>)
    requires
        lo <= hi <= cs@.len(),
    ensures
        match r {
            Some(v) => {
                &&& all_digits(cs@.subrange(lo as int, hi as int))
                &&& digits_val(cs@.subrange(lo as int, hi as int)) == v
            },
            None => !all_digits(cs@.subrange(lo as int, hi as int)) || digits_val(
                cs@.subrange(lo as int, hi as int),
            ) > u64::MAX,
        },
{
    let ghost sub = cs@.subrange(lo as int, hi as int);
    if lo == hi {
        return None;
    }
    let mut acc: u64 = 0;
    let mut i: usize = lo;
    while i < hi
        invariant
            lo <= i <= hi,
            sub == cs@.subrange(lo as int, hi as int),
            forall|j: int| 0 <= j < i - lo ==> is_digit(#[trigger] sub[j]),
            acc == digits_val(sub.take(i - lo)),
        decreases hi - i,
    {
        let c = cs[i];
        proof {
            assert(sub[i - lo] == cs@[i as int]);
        }
        if !digit_char_check(c) {
            return None;
        }
        let d: u64 = (c as u32 as u64) - 48;
        proof {
            assert(sub.take(i - lo + 1).drop_last() =~= sub.take(i - lo));
            assert(sub.take(i - lo + 1).last() == sub[i - lo]);
        }
        let wide: u128 = (acc as u128) * 10 + (d as u128);
        if wide > u64::MAX as u128 {
            proof {
                lemma_digits_val_prefix(sub, i - lo + 1);
            }
            return None;
        }
        acc = wide as u64;
        i = i + 1;
    }
    proof {
        assert(sub.take(hi - lo) =~= sub);
    }
    Some(acc)
}

/// First index of `c` in `cs[lo..hi]`, as an absolute index.
#[verifier::loop_isolation(false)]
pub fn find_char_in(cs: &Vec<char>, c: char, lo: usize, hi: usize) -> (r: Option<usize>)
    requires
        lo <= hi <= cs@.len(),
    ensures
        match r {
            Some(i) => {
                &&& lo <= i < hi
                &&& find_char(cs@.subrange(lo as int, hi as int), c) == i - lo
            },
            None => find_char(cs@.subrange(lo as int, hi as int), c) == -1,
        },
{
    let ghost sub = cs@.subrange(lo as int, hi as int);
    let mut i: usize = lo;
    while i < hi
        invariant
            lo <= i <= hi,
            sub == cs@.subrange(lo as int, hi as int),
            forall|j: int| 0 <= j < i - lo ==> sub[j] != c,
        decreases hi - i,
    {
        proof {
            assert(sub[i - lo] == cs@[i as int]);
        }
        if cs[i] == c {
            proof {
                lemma_find_char(sub, c);
                let f = find_char(sub, c);
                if f == -1 {
                    assert(sub[i - lo] != c);
                    assert(false);
                } else {
                    if f < i - lo {
                        assert(sub[f] != c);
                        assert(false);
                    } else if f > i - lo {
                        assert(sub[i - lo] != c);
                        assert(false);
                    }
                }
            }
            return Some(i);
        }
        i = i + 1;
    }
    proof {
        lemma_find_char(sub, c);
        let f = find_char(sub, c);
        if f >= 0 {
            assert(sub[f] != c);
            assert(false);
        }
    }
    None
}

/// Whether `cs[lo..hi]` is one or more decimal digits.
#[verifier::loop_isolation(false)]
pub fn all_digits_check(cs: &Vec<char>, lo: usize, hi: usize) -> (r: bool)
    requires
        lo <= hi <= cs@.len(),
    ensures
        r == all_digits(cs@.subrange(lo as int, hi as int)),
{
    let ghost sub = cs@.subrange(lo as int, hi as int);
    if lo == hi {
        return false;
    }
    let mut i: usize = lo;
    while i < hi
        invariant
            lo <= i <= hi,
            sub == cs@.subrange(lo as int, hi as int),
            forall|j: int| 0 <= j < i - lo ==> is_digit(#[trigger] sub[j]),
        decreases hi - i,
    {
        proof {
            assert(sub[i - lo] == cs@[i as int]);
        }
        if !digit_char_check(cs[i]) {
            return false;
        }
        i = i + 1;
    }
    true
}

/// A syntax-kind parse error with the given message.
fn duration_error(message: &str) -> (r: ParseError)
    ensures
        r.kind == ParseErrorKind::Syntax,
{
    ParseError {
        kind: ParseErrorKind::Syntax,
        message: message.to_owned(),
        path: None,
        line: None,
        column: None,
    }
}

/// When an ISO time part yields seconds, they are non-negative.
proof fn lemma_iso_time_nonneg(time: Seq<char>)
    ensures
        match iso_time_secs(time) {
            Some(t) => t >= 0,
            None => true,
        },
{
    match iso_time_secs(time) {
        Some(t) => {
            let c1 = iso_component(time, 'H', 3600);
            if find_char(time, 'H') >= 0 {
                lemma_digits_val_nonneg(time.take(find_char(time, 'H')));
            }
            let (h, rem1) = c1->Some_0;
            if find_char(rem1, 'M') >= 0 {
                lemma_digits_val_nonneg(rem1.take(find_char(rem1, 'M')));
            }
            let (m, rem2) = iso_component(rem1, 'M', 60)->Some_0;
            if find_char(rem2, 'S') >= 0 {
                lemma_digits_val_nonneg(rem2.take(find_char(rem2, 'S')));
            }
        },
        None => {},
    }
}

/// Parses the time part of an ISO duration, `cs[lo..]`, into seconds.
///
/// `Err` exactly when the part is malformed or the whole value cannot fit.
#[verifier::loop_isolation(false)]
#[verifier::rlimit(60)]
fn parse_iso_time(cs: &Vec<char>, lo: usize) -> (r: Result<u64, ParseError>)
    requires
        lo <= cs@.len(),
    ensures
        match r {
            Ok(t) => iso_time_secs(cs@.subrange(lo as int, cs@.len() as int)) == Some(t as int),
            Err(e) => {
                &&& e.kind == ParseErrorKind::Syntax
                &&& match iso_time_secs(cs@.subrange(lo as int, cs@.len() as int)) {
                    Some(t) => t > u64::MAX,
                    None => true,
                }
            },
        },
{
    let n: usize = cs.len();
    let ghost time = cs@.subrange(lo as int, n as int);
    if lo == n {
        return Err(duration_error("invalid duration: empty time part"));
    }
    let mut total: u128 = 0;
    let mut cursor: usize = lo;

    // Hours.
    let ghost comp_h = iso_component(time, 'H', 3600);
    match find_char_in(cs, 'H', lo, n) {
        Some(hidx) => {
            proof {
                assert(time.take(hidx - lo) =~= cs@.subrange(lo as int, hidx as int));
                assert(time.skip(hidx - lo + 1) =~= cs@.subrange(hidx as int + 1, n as int));
            }
            match scan_digits(cs, lo, hidx) {
                Some(v) => {
                    total = (v as u128) * 3600;
                    proof {
                        lemma_digits_val_nonneg(time.take(hidx - lo));
                    }
                },
                None => {
                    proof {
                        if all_digits(time.take(hidx - lo)) {
                            let dv = digits_val(time.take(hidx - lo));
                            assert(dv > u64::MAX);
                            match iso_time_secs(time) {
                                Some(t) => {
                                    lemma_iso_time_nonneg(time);
                                    let rem1 = time.skip(hidx - lo + 1);
                                    if find_char(rem1, 'M') >= 0 {
                                        lemma_digits_val_nonneg(
                                            rem1.take(find_char(rem1, 'M')),
                                        );
                                    }
                                    let (m, rem2) = iso_component(rem1, 'M', 60)->Some_0;
                                    if find_char(rem2, 'S') >= 0 {
                                        lemma_digits_val_nonneg(
                                            rem2.take(find_char(rem2, 'S')),
                                        );
                                    }
                                    assert(dv * 3600 >= dv * 1);
                                },
                                None => {},
                            }
                        }
                    }
                    return Err(duration_error("invalid duration: bad hours"));
                },
            }
            cursor = hidx + 1;
        },
        None => {
        },
    }
    let ghost rem1 = if find_char(time, 'H') >= 0 {
        time.skip(find_char(time, 'H') + 1)
    } else {
        time
    };
    proof {
        assert(rem1 =~= cs@.subrange(cursor as int, n as int));
    }

    // Minutes.
    match find_char_in(cs, 'M', cursor, n) {
        Some(midx) => {
            proof {
                assert(rem1.take(midx - cursor) =~= cs@.subrange(cursor as int, midx as int));
                assert(rem1.skip(midx - cursor + 1) =~= cs@.subrange(
                    midx as int + 1,
                    n as int,
                ));
            }
            match scan_digits(cs, cursor, midx) {
                Some(v) => {
                    proof {
                        lemma_digits_val_nonneg(rem1.take(midx - cursor));
                    }
                    total = total + (v as u128) * 60;
                },
                None => {
                    proof {
                        if all_digits(rem1.take(midx - cursor)) {
                            let dv = digits_val(rem1.take(midx - cursor));
                            match iso_time_secs(time) {
                                Some(t) => {
                                    lemma_iso_time_nonneg(time);
                                    let rem2 = rem1.skip(midx - cursor + 1);
                                    if find_char(rem2, 'S') >= 0 {
                                        lemma_digits_val_nonneg(
                                            rem2.take(find_char(rem2, 'S')),
                                        );
                                    }
                                    if find_char(time, 'H') >= 0 {
                                        lemma_digits_val_nonneg(
                                            time.take(find_char(time, 'H')),
                                        );
                                    }
                                    assert(dv * 60 >= dv * 1);
                                },
                                None => {},
                            }
                        }
                    }
                    return Err(duration_error("invalid duration: bad minutes"));
                },
            }
            cursor = midx + 1;
        },
        None => {
        },
    }
    let ghost rem2 = if find_char(rem1, 'M') >= 0 {
        rem1.skip(find_char(rem1, 'M') + 1)
    } else {
        rem1
    };
    proof {
        assert(rem2 =~= cs@.subrange(cursor as int, n as int));
    }

    // Seconds.
    match find_char_in(cs, 'S', cursor, n) {
        Some(sidx) => {
            proof {
                assert(rem2.take(sidx - cursor) =~= cs@.subrange(cursor as int, sidx as int));
                assert(rem2.skip(sidx - cursor + 1) =~= cs@.subrange(
                    sidx as int + 1,
                    n as int,
                ));
            }
            match scan_digits(cs, cursor, sidx) {
                Some(v) => {
                    proof {
                        lemma_digits_val_nonneg(rem2.take(sidx - cursor));
                    }
                    total = total + v as u128;
                },
                None => {
                    proof {
                        if all_digits(rem2.take(sidx - cursor)) {
                            let dv = digits_val(rem2.take(sidx - cursor));
                            match iso_time_secs(time) {
                                Some(t) => {
                                    lemma_iso_time_nonneg(time);
                                    if find_char(time, 'H') >= 0 {
                                        lemma_digits_val_nonneg(
                                            time.take(find_char(time, 'H')),
                                        );
                                    }
                                    if find_char(rem1, 'M') >= 0 {
                                        lemma_digits_val_nonneg(
                                            rem1.take(find_char(rem1, 'M')),
                                        );
                                    }
                                },
                                None => {},
                            }
                        }
                    }
                    return Err(duration_error("invalid duration: bad seconds"));
                },
            }
            cursor = sidx + 1;
        },
        None => {
        },
    }
    let ghost rem3 = if find_char(rem2, 'S') >= 0 {
        rem2.skip(find_char(rem2, 'S') + 1)
    } else {
        rem2
    };
    proof {
        assert(rem3 =~= cs@.subrange(cursor as int, n as int));
    }

    if cursor != n {
        return Err(duration_error("invalid duration: trailing text"));
    }
    proof {
        assert(rem3.len() == 0);
    }
    if total > u64::MAX as u128 {
        return Err(duration_error("duration value too large"));
    }
    Ok(total as u64)
}

/// Parses a shorthand duration (`<digits><unit>`), given as characters.
fn parse_shorthand(cs: &Vec<char>) -> (r: Result<u64, ParseError>)
    ensures
        match r {
            Ok(v) => shorthand_secs(cs@) == Some(v as int),
            Err(e) => {
                &&& e.kind == ParseErrorKind::Syntax
                &&& match shorthand_secs(cs@) {
                    Some(v) => v > u64::MAX,
                    None => true,
                }
            },
        },
{
    let n: usize = cs.len();
    if n < 2 {
        return Err(duration_error("invalid shorthand duration"));
    }
    proof {
        assert(cs@.subrange(0, n - 1) =~= cs@.drop_last());
    }
    let unit = cs[n - 1];
    match scan_digits(cs, 0, n - 1) {
        Some(v) => {
            if unit == 's' {
                Ok(v)
            } else if unit == 'm' {
                let wide: u128 = (v as u128) * 60;
                if wide > u64::MAX as u128 {
                    Err(duration_error("duration value too large"))
                } else {
                    Ok(wide as u64)
                }
            } else if unit == 'h' {
                let wide: u128 = (v as u128) * 3600;
                if wide > u64::MAX as u128 {
                    Err(duration_error("duration value too large"))
                } else {
                    Ok(wide as u64)
                }
            } else if unit == 'd' {
                let wide: u128 = (v as u128) * 86400;
                if wide > u64::MAX as u128 {
                    Err(duration_error("duration value too large"))
                } else {
                    Ok(wide as u64)
                }
            } else {
                Err(duration_error("unknown duration unit"))
            }
        },
        None => {
            proof {
                if all_digits(cs@.drop_last()) {
                    let dv = digits_val(cs@.drop_last());
                    match shorthand_secs(cs@) {
                        Some(v) => {
                            let k = unit_secs(cs@.last())->Some_0;
                            assert(k >= 1);
                            assert(dv * k >= dv * 1) by (nonlinear_arith)
                                requires
                                    k >= 1,
                                    dv > 0,
                            ;
                        },
                        None => {},
                    }
                }
            }
            Err(duration_error("invalid shorthand duration"))
        },
    }
}

/// Parses a restricted ISO-8601 duration (starting with `P`), given as
/// characters.
fn parse_iso(cs: &Vec<char>) -> (r: Result<u64, ParseError>)
    requires
        cs@.len() >= 1,
        cs@[0] == 'P',
    ensures
        match r {
            Ok(v) => iso_secs(cs@) == Some(v as int),
            Err(e) => {
                &&& e.kind == ParseErrorKind::Syntax
                &&& match iso_secs(cs@) {
                    Some(v) => v > u64::MAX,
                    None => true,
                }
            },
        },
{
    let n: usize = cs.len();
    let ghost rest = cs@.drop_first();
    proof {
        assert(rest =~= cs@.subrange(1, n as int));
    }
    let ti_opt = find_char_in(cs, 'T', 1, n);
    let date_hi: usize = match ti_opt {
        Some(t) => t,
        None => n,
    };
    let ghost ti = find_char(rest, 'T');
    let ghost date = if ti >= 0 { rest.take(ti) } else { rest };
    proof {
        assert(date =~= cs@.subrange(1, date_hi as int));
    }
    let days: u64 = if date_hi == 1 {
        0
    } else {
        if cs[date_hi - 1] != 'D' {
            return Err(duration_error("invalid duration: bad date part"));
        }
        proof {
            assert(date.last() == cs@[date_hi - 1]);
            assert(date.drop_last() =~= cs@.subrange(1, date_hi - 1));
        }
        match scan_digits(cs, 1, date_hi - 1) {
            Some(v) => v,
            None => {
                proof {
                    if all_digits(date.drop_last()) {
                        let dv = digits_val(date.drop_last());
                        match iso_secs(cs@) {
                            Some(total) => {
                                if ti >= 0 {
                                    lemma_iso_time_nonneg(rest.skip(ti + 1));
                                }
                                assert(dv * 86400 >= dv * 1) by (nonlinear_arith)
                                    requires
                                        dv > 0,
                                ;
                            },
                            None => {},
                        }
                    }
                }
                return Err(duration_error("invalid duration: bad date part"));
            },
        }
    };
    proof {
        if date_hi != 1 {
            lemma_digits_val_nonneg(date.drop_last());
        }
    }
    let days_secs: u128 = (days as u128) * 86400;
    let total: u128 = match ti_opt {
        Some(t) => {
            proof {
                assert(rest.skip(ti + 1) =~= cs@.subrange(t + 1, n as int));
            }
            match parse_iso_time(cs, t + 1) {
                Ok(tv) => days_secs + tv as u128,
                Err(e) => {
                    proof {
                        match iso_time_secs(rest.skip(ti + 1)) {
                            Some(tsec) => {},
                            None => {},
                        }
                    }
                    return Err(e);
                },
            }
        },
        None => {
            if date_hi == 1 {
                return Err(duration_error("invalid duration: no components"));
            }
            days_secs
        },
    };
    proof {
        if ti >= 0 {
            lemma_iso_time_nonneg(rest.skip(ti + 1));
        }
    }
    if total > u64::MAX as u128 {
        return Err(duration_error("duration value too large"));
    }
    Ok(total as u64)
}

/// Parses a duration string in either shorthand or ISO-8601 form.
///
/// Accepted: `30s`, `5m`, `1h`, `2d`, `PT30S`, `PT5M`, `P2D`, `P1DT12H30M15S`
/// and the like. `Err` exactly when the string is malformed or its value does
/// not fit in 64 bits of seconds.
pub fn parse_duration(input: &str) -> (r: Result<Duration, ParseError>)
    ensures
        match r {
            Ok(d) => duration_secs(input@) == Some(d.secs as int),
            Err(e) => {
                &&& e.kind == ParseErrorKind::Syntax
                &&& match duration_secs(input@) {
                    Some(v) => v > u64::MAX,
                    None => true,
                }
            },
        },
{
    let cs = crate::text::chars_of(input);
    let n: usize = cs.len();
    if n == 0 {
        return Err(duration_error("empty duration string"));
    }
    if cs[0] == 'P' {
        match parse_iso(&cs) {
            Ok(v) => Ok(Duration { secs: v }),
            Err(e) => Err(e),
        }
    } else {
        match parse_shorthand(&cs) {
            Ok(v) => Ok(Duration { secs: v }),
            Err(e) => Err(e),
        }
    }
}

/// Whether `cs[lo..]` is a well-formed ISO time part, value aside.
#[verifier::loop_isolation(false)]
fn valid_iso_time(cs: &Vec<char>, lo: usize) -> (r: bool)
    requires
        lo <= cs@.len(),
    ensures
        r == (iso_time_secs(cs@.subrange(lo as int, cs@.len() as int)) is Some),
{
    let n: usize = cs.len();
    let ghost time = cs@.subrange(lo as int, n as int);
    if lo == n {
        return false;
    }
    let mut cursor: usize = lo;
    match find_char_in(cs, 'H', lo, n) {
        Some(hidx) => {
            proof {
                assert(time.take(hidx - lo) =~= cs@.subrange(lo as int, hidx as int));
                assert(time.skip(hidx - lo + 1) =~= cs@.subrange(hidx as int + 1, n as int));
            }
            if !all_digits_check(cs, lo, hidx) {
                return false;
            }
            cursor = hidx + 1;
        },
        None => {},
    }
    let ghost rem1 = if find_char(time, 'H') >= 0 {
        time.skip(find_char(time, 'H') + 1)
    } else {
        time
    };
    proof {
        assert(rem1 =~= cs@.subrange(cursor as int, n as int));
    }
    match find_char_in(cs, 'M', cursor, n) {
        Some(midx) => {
            proof {
                assert(rem1.take(midx - cursor) =~= cs@.subrange(cursor as int, midx as int));
                assert(rem1.skip(midx - cursor + 1) =~= cs@.subrange(midx as int + 1, n as int));
            }
            if !all_digits_check(cs, cursor, midx) {
                return false;
            }
            cursor = midx + 1;
        },
        None => {},
    }
    let ghost rem2 = if find_char(rem1, 'M') >= 0 {
        rem1.skip(find_char(rem1, 'M') + 1)
    } else {
        rem1
    };
    proof {
        assert(rem2 =~= cs@.subrange(cursor as int, n as int));
    }
    match find_char_in(cs, 'S', cursor, n) {
        Some(sidx) => {
            proof {
                assert(rem2.take(sidx - cursor) =~= cs@.subrange(cursor as int, sidx as int));
                assert(rem2.skip(sidx - cursor + 1) =~= cs@.subrange(sidx as int + 1, n as int));
            }
            if !all_digits_check(cs, cursor, sidx) {
                return false;
            }
            cursor = sidx + 1;
        },
        None => {},
    }
    let ghost rem3 = if find_char(rem2, 'S') >= 0 {
        rem2.skip(find_char(rem2, 'S') + 1)
    } else {
        rem2
    };
    proof {
        assert(rem3 =~= cs@.subrange(cursor as int, n as int));
    }
    cursor == n
}

/// Whether a string is a well-formed duration in either grammar, whatever
/// its magnitude.
pub fn is_valid_duration(s: &str) -> (r: bool)
    ensures
        r == (duration_secs(s@) is Some),
{
    let cs = crate::text::chars_of(s);
    let n: usize = cs.len();
    if n == 0 {
        return false;
    }
    if cs[0] == 'P' {
        let ghost rest = cs@.drop_first();
        proof {
            assert(rest =~= cs@.subrange(1, n as int));
        }
        let ti_opt = find_char_in(&cs, 'T', 1, n);
        let date_hi: usize = match ti_opt {
            Some(t) => t,
            None => n,
        };
        let ghost ti = find_char(rest, 'T');
        let ghost date = if ti >= 0 { rest.take(ti) } else { rest };
        proof {
            assert(date =~= cs@.subrange(1, date_hi as int));
        }
        if date_hi != 1 {
            if cs[date_hi - 1] != 'D' {
                return false;
            }
            proof {
                assert(date.last() == cs@[date_hi - 1]);
                assert(date.drop_last() =~= cs@.subrange(1, date_hi - 1));
            }
            if !all_digits_check(&cs, 1, date_hi - 1) {
                return false;
            }
        }
        match ti_opt {
            Some(t) => {
                proof {
                    assert(rest.skip(ti + 1) =~= cs@.subrange(t + 1, n as int));
                }
                valid_iso_time(&cs, t + 1)
            },
            None => date_hi != 1,
        }
    } else {
        if n < 2 {
            return false;
        }
        proof {
            assert(cs@.subrange(0, n - 1) =~= cs@.drop_last());
        }
        let unit = cs[n - 1];
        if !(unit == 's' || unit == 'm' || unit == 'h' || unit == 'd') {
            return false;
        }
        all_digits_check(&cs, 0, n - 1)
    }
}

/// Where a letter stands in a digit string with one letter appended: at the
/// end when it is that letter, nowhere otherwise.
proof fn lemma_find_char_digits_append(ds: Seq<char>, c: char, t: char)
    requires
        forall|i: int| 0 <= i < ds.len() ==> is_digit(#[trigger] ds[i]),
        !is_digit(t),
    ensures
        find_char(ds.push(c), t) == if c == t {
            ds.len() as int
        } else {
            -1
        },
    decreases ds.len(),
{
    let s = ds.push(c);
    if ds.len() == 0 {
        assert(s[0] == c);
        if c != t {
            assert(s.drop_first() =~= Seq::<char>::empty());
            assert(find_char(s.drop_first(), t) == -1);
        }
    } else {
        assert(s[0] == ds[0]);
        assert(is_digit(ds[0]));
        assert(s[0] != t);
        assert(s.drop_first() =~= ds.drop_first().push(c));
        assert(forall|i: int|
            0 <= i < ds.drop_first().len() ==> #[trigger] ds.drop_first()[i] == ds[i + 1]);
        lemma_find_char_digits_append(ds.drop_first(), c, t);
        assert(find_char(s.drop_first(), t) == find_char(ds.drop_first().push(c), t));
        if c == t {
            assert(find_char(s, t) == ds.drop_first().len() + 1);
        } else {
            assert(find_char(s, t) == -1);
        }
    }
}

/// The two duration grammars agree unit by unit: `PT{n}S` denotes the same
/// seconds as `{n}s`, `PT{n}M` as `{n}m`, `PT{n}H` as `{n}h`, and `P{n}D` as
/// `{n}d`, for every digit string `{n}`.
pub proof fn lemma_duration_grammar_equivalence(ds: Seq<char>)
    requires
        all_digits(ds),
    ensures
        duration_secs(seq!['P', 'T'] + ds.push('S')) == duration_secs(ds.push('s')),
        duration_secs(seq!['P', 'T'] + ds.push('M')) == duration_secs(ds.push('m')),
        duration_secs(seq!['P', 'T'] + ds.push('H')) == duration_secs(ds.push('h')),
        duration_secs(seq!['P'] + ds.push('D')) == duration_secs(ds.push('d')),
{
    lemma_duration_time_unit(ds, 'S', 's', 1);
    lemma_duration_time_unit(ds, 'M', 'm', 60);
    lemma_duration_time_unit(ds, 'H', 'h', 3600);

    // Date-only ISO form against the `d` shorthand.
    let dv = digits_val(ds);
    assert(ds.push('d')[0] == ds[0]);
    assert(ds.push('d').drop_last() =~= ds);
    assert(ds.push('d').last() == 'd');
    assert(duration_secs(ds.push('d')) == Some(dv * 86400));
    let s = seq!['P'] + ds.push('D');
    let rest = s.drop_first();
    assert(rest =~= ds.push('D'));
    lemma_find_char_digits_append(ds, 'D', 'T');
    assert(find_char(rest, 'T') == -1);
    assert(rest.last() == 'D');
    assert(rest.drop_last() =~= ds);
    assert(rest.len() > 0);
    assert(iso_secs(s) == Some(dv * 86400));
    assert(s[0] == 'P');
    assert(duration_secs(s) == Some(dv * 86400));
}

/// One ISO time unit against its shorthand twin: `PT{n}<upper>` denotes the
/// same seconds as `{n}<lower>`.
proof fn lemma_duration_time_unit(ds: Seq<char>, upper: char, lower: char, mult: int)
    requires
        all_digits(ds),
        (upper == 'S' && lower == 's' && mult == 1) || (upper == 'M' && lower == 'm' && mult
            == 60) || (upper == 'H' && lower == 'h' && mult == 3600),
    ensures
        duration_secs(seq!['P', 'T'] + ds.push(upper)) == duration_secs(ds.push(lower)),
        duration_secs(ds.push(lower)) == Some(digits_val(ds) * mult),
{
    let dv = digits_val(ds);

    // Shorthand side.
    assert(ds.push(lower)[0] == ds[0]);
    assert(ds.push(lower).drop_last() =~= ds);
    assert(ds.push(lower).last() == lower);
    assert(unit_secs(lower) == Some(mult));
    assert(duration_secs(ds.push(lower)) == Some(dv * mult));

    // ISO time part.
    let time = ds.push(upper);
    lemma_find_char_digits_append(ds, upper, 'H');
    lemma_find_char_digits_append(ds, upper, 'M');
    lemma_find_char_digits_append(ds, upper, 'S');
    assert(time.take(ds.len() as int) =~= ds);
    assert(time.skip(ds.len() as int + 1) =~= Seq::<char>::empty());
    if upper == 'H' {
        let rem1 = time.skip(ds.len() as int + 1);
        assert(iso_component(time, 'H', 3600) == Some((dv * 3600, rem1)));
        assert(find_char(rem1, 'M') == -1);
        assert(find_char(rem1, 'S') == -1);
        assert(iso_time_secs(time) == Some(dv * 3600));
    } else if upper == 'M' {
        assert(iso_component(time, 'H', 3600) == Some((0int, time)));
        let rem2 = time.skip(ds.len() as int + 1);
        assert(iso_component(time, 'M', 60) == Some((dv * 60, rem2)));
        assert(find_char(rem2, 'S') == -1);
        assert(iso_time_secs(time) == Some(dv * 60));
    } else {
        assert(iso_component(time, 'H', 3600) == Some((0int, time)));
        assert(iso_component(time, 'M', 60) == Some((0int, time)));
        assert(iso_component(time, 'S', 1) == Some((dv * 1, time.skip(ds.len() as int + 1))));
        assert(iso_time_secs(time) == Some(dv * 1));
    }

    // Whole ISO string: `P`, `T`, then the time part.
    let s = seq!['P', 'T'] + time;
    let rest = s.drop_first();
    assert(rest =~= seq!['T'] + time);
    assert(rest[0] == 'T');
    assert(find_char(rest, 'T') == 0);
    assert(rest.take(0) =~= Seq::<char>::empty());
    assert(rest.skip(1) =~= time);
    assert(s[0] == 'P');
    assert(iso_secs(s) == Some(0 + dv * mult));
    assert(duration_secs(s) == Some(dv * mult));
}

/// Seconds per upper-case ISO time unit letter.
pub open spec fn unit_secs_upper(c: char) -> int {
    if c == 'S' {
        1
    } else if c == 'M' {
        60
    } else {
        3600
    }
}

} // verus!
