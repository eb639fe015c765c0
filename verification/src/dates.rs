use vstd::prelude::*;
use crate::errors::VaultError;
use crate::json_text::{is_ws, skip_ws_spec};

verus! {

/// One day, week, thirty-day month, and 365-day year, in milliseconds.
/// Month and year are fixed offsets, not calendar-aware.
pub const DAY_MS: i64 = 86400000;

pub const WEEK_MS: i64 = 7 * 86400000;

pub const MONTH_MS: i64 = 30 * 86400000;

pub const YEAR_MS: i64 = 365 * 86400000;

/// What a relative-date phrase denotes.
#[derive(Debug, Clone, Copy, PartialEq, Eq)]
pub enum RelativePhrase {
    /// The start of the current day.
    Today,
    /// One day before the current moment.
    Yesterday,
    /// One week before the current moment.
    LastWeek,
    /// Thirty days before the current moment.
    LastMonth,
    /// 365 days before the current moment.
    LastYear,
    /// A count of units before the current moment.
    Ago { count: i64, unit_ms: i64 },
    /// A unit count of zero: rejected.
    NonPositive,
    /// A digit run too large to read as a count: rejected.
    BadNumber,
    /// Anything else: rejected, naming the original text.
    Unrecognized,
}

/// ASCII case folding, character by character.
pub open spec fn ascii_lower(c: char) -> char {
    if 'A' <= c && c <= 'Z' {
        (((c as u32) + 32) as u32) as char
    } else {
        c
    }
}

pub open spec fn ascii_lower_seq(s: Seq<char>) -> Seq<char> {
    s.map_values(|c: char| ascii_lower(c))
}

pub open spec fn is_digit(c: char) -> bool {
    '0' <= c && c <= '9'
}

/// The first position at or after `i` holding a non-digit.
pub open spec fn scan_digits(s: Seq<char>, i: int) -> int
    decreases s.len() - i when 0 <= i <= s.len()
{
    if 0 <= i < s.len() && is_digit(s[i]) {
        scan_digits(s, i + 1)
    } else {
        i
    }
}

pub proof fn lemma_scan_digits(s: Seq<char>, i: int)
    requires
        0 <= i <= s.len(),
    ensures
        i <= scan_digits(s, i) <= s.len(),
        forall|t: int| i <= t < scan_digits(s, i) ==> is_digit(s[t]),
        scan_digits(s, i) < s.len() ==> !is_digit(s[scan_digits(s, i)]),
    decreases s.len() - i,
{
    if i < s.len() && is_digit(s[i]) {
        lemma_scan_digits(s, i + 1);
    }
}

/// The first position at or after `i` holding whitespace, or the length.
pub open spec fn scan_word(s: Seq<char>, i: int) -> int
    decreases s.len() - i when 0 <= i <= s.len()
{
    if 0 <= i < s.len() && !is_ws(s[i]) {
        scan_word(s, i + 1)
    } else {
        i
    }
}

pub proof fn lemma_scan_word(s: Seq<char>, i: int)
    requires
        0 <= i <= s.len(),
    ensures
        i <= scan_word(s, i) <= s.len(),
    decreases s.len() - i,
{
    if i < s.len() && !is_ws(s[i]) {
        lemma_scan_word(s, i + 1);
    }
}

/// The position just past the trailing whitespace that ends at `e`.
pub open spec fn rstrip_idx(s: Seq<char>, e: int) -> int
    decreases e when 0 <= e <= s.len()
{
    if 0 < e <= s.len() && is_ws(s[e - 1]) {
        rstrip_idx(s, e - 1)
    } else {
        e
    }
}

pub proof fn lemma_rstrip(s: Seq<char>, e: int)
    requires
        0 <= e <= s.len(),
    ensures
        0 <= rstrip_idx(s, e) <= e,
    decreases e,
{
    if 0 < e && is_ws(s[e - 1]) {
        lemma_rstrip(s, e - 1);
    }
}

/// The value of the digit run `[i, end)`, read left to right onto `acc`.
pub open spec fn dv_go(s: Seq<char>, i: int, end: int, acc: int) -> int
    decreases end - i when 0 <= i <= end <= s.len()
{
    if i >= end {
        acc
    } else {
        dv_go(s, i + 1, end, acc * 10 + ((s[i] as u32) - ('0' as u32)))
    }
}

pub proof fn lemma_dv_ge_acc(s: Seq<char>, i: int, end: int, acc: int)
    requires
        0 <= i <= end <= s.len(),
        acc >= 0,
        forall|t: int| i <= t < end ==> is_digit(#[trigger] s[t]),
    ensures
        dv_go(s, i, end, acc) >= acc,
    decreases end - i,
{
    if i < end {
        assert(is_digit(s[i]));
        lemma_dv_ge_acc(s, i + 1, end, acc * 10 + ((s[i] as u32) - ('0' as u32)));
    }
}

/// The milliseconds of one unit word, where the word is known.
pub open spec fn unit_ms_of(u: Seq<char>) -> Option<i64> {
    if u == "day"@ || u == "days"@ {
        Some(DAY_MS)
    } else if u == "week"@ || u == "weeks"@ {
        Some(WEEK_MS)
    } else if u == "month"@ || u == "months"@ {
        Some(MONTH_MS)
    } else if u == "year"@ || u == "years"@ {
        Some(YEAR_MS)
    } else {
        None
    }
}

/// Reads the pattern `<digits> <unit> ago` from already-trimmed,
/// already-folded text.
pub open spec fn parse_ago(t: Seq<char>) -> RelativePhrase {
    let d_end = scan_digits(t, 0);
    if d_end == 0 || !(0 <= d_end <= t.len()) {
        RelativePhrase::Unrecognized
    } else {
        let w1 = skip_ws_spec(t, d_end);
        if w1 == d_end || !(d_end <= w1 <= t.len()) {
            RelativePhrase::Unrecognized
        } else {
            let u_end = scan_word(t, w1);
            if !(w1 < u_end <= t.len()) {
                RelativePhrase::Unrecognized
            } else {
                match unit_ms_of(t.subrange(w1, u_end)) {
                    None => RelativePhrase::Unrecognized,
                    Some(ms) => {
                        let w2 = skip_ws_spec(t, u_end);
                        if w2 == u_end || !(u_end <= w2 <= t.len()) {
                            RelativePhrase::Unrecognized
                        } else if t.subrange(w2, t.len() as int) == "ago"@ {
                            let n = dv_go(t, 0, d_end, 0);
                            if n > i64::MAX {
                                RelativePhrase::BadNumber
                            } else if n <= 0 {
                                RelativePhrase::NonPositive
                            } else {
                                RelativePhrase::Ago { count: n as i64, unit_ms: ms }
                            }
                        } else {
                            RelativePhrase::Unrecognized
                        }
                    },
                }
            }
        }
    }
}

/// What a whole relative-date phrase denotes: the case-insensitive
/// literals, or the `<count> <unit> ago` pattern with surrounding and
/// internal whitespace tolerated.
pub open spec fn phrase_of(s: Seq<char>) -> RelativePhrase {
    let l = ascii_lower_seq(s);
    if l == "today"@ {
        RelativePhrase::Today
    } else if l == "yesterday"@ {
        RelativePhrase::Yesterday
    } else if l == "last week"@ {
        RelativePhrase::LastWeek
    } else if l == "last month"@ {
        RelativePhrase::LastMonth
    } else if l == "last year"@ {
        RelativePhrase::LastYear
    } else {
        let start = skip_ws_spec(l, 0);
        let stop = rstrip_idx(l, l.len() as int);
        if 0 <= start <= stop <= l.len() {
            parse_ago(l.subrange(start, stop))
        } else {
            RelativePhrase::Unrecognized
        }
    }
}

/// The milliseconds the phrase stands back from `now`, where the offset is
/// fixed; only the current-day literal floors to midnight.
pub open spec fn day_floor(now: i64) -> int {
    let m = (now as int) % (DAY_MS as int);
    if m < 0 {
        now - (m + DAY_MS)
    } else {
        now - m
    }
}

/// What resolving a phrase against `now` yields, where it yields a moment.
pub open spec fn resolve_value(now: i64, p: RelativePhrase) -> int {
    match p {
        RelativePhrase::Today => day_floor(now),
        RelativePhrase::Yesterday => now - DAY_MS,
        RelativePhrase::LastWeek => now - WEEK_MS,
        RelativePhrase::LastMonth => now - MONTH_MS,
        RelativePhrase::LastYear => now - YEAR_MS,
        RelativePhrase::Ago { count, unit_ms } => now - count * unit_ms,
        _ => 0,
    }
}

/// Whether a phrase is one the grammar accepts and resolves.
pub open spec fn phrase_recognized(p: RelativePhrase) -> bool {
    match p {
        RelativePhrase::Unrecognized | RelativePhrase::NonPositive | RelativePhrase::BadNumber => false,
        _ => true,
    }
}

fn ascii_lower_exec(c: char) -> (r: char)
    ensures
        r == ascii_lower(c),
{
    if 'A' <= c && c <= 'Z' {
        let v: u32 = (c as u32) + 32;
        proof {
            assert(crate::text::is_unicode_scalar(v));
        }
        match char::from_u32(v) {
            Some(lc) => lc,
            None => {
                proof {
                    assert(false);
                }
                c
            },
        }
    } else {
        c
    }
}

fn lower_chars(s: &str) -> (r: Vec<char>)
    ensures
        r@ == ascii_lower_seq(s@),
{
    let v = crate::json_text::str_to_chars(s);
    let mut r: Vec<char> = Vec::new();
    let mut k: usize = 0;
    proof {
        assert(r@ =~= ascii_lower_seq(v@.subrange(0, 0)));
    }
    while k < v.len()
        invariant
            k <= v@.len(),
            v@ == s@,
            r@ == ascii_lower_seq(v@.subrange(0, k as int)),
        decreases v@.len() - k,
    {
        r.push(ascii_lower_exec(v[k]));
        proof {
            assert(v@.subrange(0, k + 1) =~= v@.subrange(0, k as int).push(v@[k as int]));
            assert(r@ =~= ascii_lower_seq(v@.subrange(0, k + 1)));
        }
        k = k + 1;
    }
    proof {
        assert(v@.subrange(0, v@.len() as int) =~= v@);
    }
    r
}

fn vec_is_lit(v: &Vec<char>, lit: &str) -> (r: bool)
    ensures
        r == (v@ == lit@),
{
    let n = lit.unicode_len();
    if v.len() != n {
        return false;
    }
    match crate::codec::lit_at_exec(v, 0, lit) {
        Some(_) => {
            proof {
                assert(v@.subrange(0, lit@.len() as int) =~= v@);
            }
            true
        },
        None => {
            proof {
                if v@ == lit@ {
                    assert(v@.subrange(0, lit@.len() as int) =~= lit@);
                }
            }
            false
        },
    }
}

/// Reads a relative-date phrase; yields exactly what the grammar assigns
/// to the text.
pub fn parse_phrase(s: &str) -> (r: RelativePhrase)
    ensures
        r == phrase_of(s@),
{
    let l = lower_chars(s);
    if vec_is_lit(&l, "today") {
        return RelativePhrase::Today;
    }
    if vec_is_lit(&l, "yesterday") {
        return RelativePhrase::Yesterday;
    }
    if vec_is_lit(&l, "last week") {
        return RelativePhrase::LastWeek;
    }
    if vec_is_lit(&l, "last month") {
        return RelativePhrase::LastMonth;
    }
    if vec_is_lit(&l, "last year") {
        return RelativePhrase::LastYear;
    }
    let start = crate::json_text::skip_ws(&l, 0);
    let stop = rstrip_exec(&l);
    if start >= stop {
        proof {
            lemma_rstrip(l@, l@.len() as int);
            if start <= stop {
                let t = l@.subrange(start as int, stop as int);
                assert(t.len() == 0);
                assert(scan_digits(t, 0) == 0);
            }
        }
        return RelativePhrase::Unrecognized;
    }
    let t = crate::parser::subvec(&l, start, stop);
    parse_ago_exec(&t)
}

fn rstrip_exec(v: &Vec<char>) -> (r: usize)
    ensures
        r == rstrip_idx(v@, v@.len() as int),
        r <= v@.len(),
{
    let mut e: usize = v.len();
    while e > 0 && is_ws_exec_local(v[e - 1])
        invariant
            e <= v@.len(),
            rstrip_idx(v@, v@.len() as int) == rstrip_idx(v@, e as int),
        decreases e,
    {
        e = e - 1;
    }
    e
}

fn is_ws_exec_local(c: char) -> (r: bool)
    ensures
        r == is_ws(c),
{
    c == ' ' || c == '\t' || c == '\n' || c == '\r'
}

fn is_digit_exec(c: char) -> (r: bool)
    ensures
        r == is_digit(c),
{
    '0' <= c && c <= '9'
}

fn scan_digits_exec(v: &Vec<char>, i: usize) -> (r: usize)
    requires
        i <= v@.len(),
    ensures
        r == scan_digits(v@, i as int),
        i <= r <= v@.len(),
{
    let mut j: usize = i;
    while j < v.len() && is_digit_exec(v[j])
        invariant
            i <= j <= v@.len(),
            scan_digits(v@, i as int) == scan_digits(v@, j as int),
        decreases v@.len() - j,
    {
        j = j + 1;
    }
    j
}

pub fn scan_word_exec(v: &Vec<char>, i: usize) -> (r: usize)
    requires
        i <= v@.len(),
    ensures
        r == scan_word(v@, i as int),
        i <= r <= v@.len(),
{
    let mut j: usize = i;
    while j < v.len() && !is_ws_exec_local(v[j])
        invariant
            i <= j <= v@.len(),
            scan_word(v@, i as int) == scan_word(v@, j as int),
        decreases v@.len() - j,
    {
        j = j + 1;
    }
    j
}

/// Reads the digit run as a count; `None` where the value does not fit.
fn digits_value_exec(v: &Vec<char>, end: usize) -> (r: Option<i64>)
    requires
        end <= v@.len(),
        forall|t: int| 0 <= t < end ==> is_digit(#[trigger] v@[t]),
    ensures
        r.is_some() <==> dv_go(v@, 0, end as int, 0) <= i64::MAX,
        r.is_some() ==> r.unwrap() as int == dv_go(v@, 0, end as int, 0),
{
    let mut acc: i64 = 0;
    let mut j: usize = 0;
    while j < end
        invariant
            j <= end <= v@.len(),
            forall|t: int| 0 <= t < end ==> is_digit(#[trigger] v@[t]),
            0 <= acc,
            dv_go(v@, 0, end as int, 0) == dv_go(v@, j as int, end as int, acc as int),
        decreases end - j,
    {
        let c = v[j];
        proof {
            assert(is_digit(v@[j as int]));
        }
        let d: i64 = ((c as u32) - 48) as i64;
        let next = match acc.checked_mul(10) {
            Some(m) => m.checked_add(d),
            None => None,
        };
        match next {
            Some(n) => {
                acc = n;
            },
            None => {
                proof {
                    let bumped = (acc as int) * 10 + ((v@[j as int] as u32) - ('0' as u32));
                    assert(bumped > i64::MAX);
                    lemma_dv_ge_acc(v@, j + 1, end as int, bumped);
                    assert(dv_go(v@, 0, end as int, 0) > i64::MAX);
                }
                return None;
            },
        }
        j = j + 1;
    }
    Some(acc)
}

/// Reads the `<count> <unit> ago` pattern from trimmed, folded text.
fn parse_ago_exec(t: &Vec<char>) -> (r: RelativePhrase)
    ensures
        r == parse_ago(t@),
{
    let d_end = scan_digits_exec(t, 0);
    if d_end == 0 {
        return RelativePhrase::Unrecognized;
    }
    let w1 = crate::json_text::skip_ws(t, d_end);
    if w1 == d_end || w1 >= t.len() {
        proof {
            crate::json_text::lemma_skip_ws_bounds(t@, d_end as int);
            if w1 != d_end && w1 >= t.len() {
                lemma_scan_word(t@, w1 as int);
                assert(scan_word(t@, w1 as int) == w1);
            }
        }
        if w1 == d_end {
            return RelativePhrase::Unrecognized;
        }
        // Whitespace ran to the end: no unit word follows.
        return RelativePhrase::Unrecognized;
    }
    let u_end = scan_word_exec(t, w1);
    if u_end <= w1 {
        return RelativePhrase::Unrecognized;
    }
    let unit = crate::parser::subvec(t, w1, u_end);
    let ms: i64 = if vec_is_lit(&unit, "day") || vec_is_lit(&unit, "days") {
        DAY_MS
    } else if vec_is_lit(&unit, "week") || vec_is_lit(&unit, "weeks") {
        WEEK_MS
    } else if vec_is_lit(&unit, "month") || vec_is_lit(&unit, "months") {
        MONTH_MS
    } else if vec_is_lit(&unit, "year") || vec_is_lit(&unit, "years") {
        YEAR_MS
    } else {
        proof {
            assert(unit_ms_of(t@.subrange(w1 as int, u_end as int)).is_none());
        }
        return RelativePhrase::Unrecognized;
    };
    proof {
        assert(unit_ms_of(t@.subrange(w1 as int, u_end as int)) == Some(ms));
    }
    let w2 = crate::json_text::skip_ws(t, u_end);
    if w2 == u_end {
        return RelativePhrase::Unrecognized;
    }
    let tail = crate::parser::subvec(t, w2, t.len());
    if !vec_is_lit(&tail, "ago") {
        return RelativePhrase::Unrecognized;
    }
    proof {
        lemma_scan_digits(t@, 0);
    }
    match digits_value_exec(t, d_end) {
        None => RelativePhrase::BadNumber,
        Some(n) => {
            if n <= 0 {
                RelativePhrase::NonPositive
            } else {
                RelativePhrase::Ago { count: n, unit_ms: ms }
            }
        },
    }
}

/// Resolves a relative-date phrase against the given moment: the
/// recognized phrases yield their fixed offset back from `now` (only the
/// current-day literal floors to midnight); everything else is rejected
/// before reaching the store.
pub fn resolve_relative_date(now_ms: i64, s: &str) -> (r: Result<i64, VaultError>)
    ensures
        ({
            let p = phrase_of(s@);
            match p {
                RelativePhrase::Unrecognized => r.is_err() && match r.unwrap_err() {
                    VaultError::CannotParseDate { input } => input@ == s@,
                    _ => false,
                },
                RelativePhrase::NonPositive => r == Err::<i64, VaultError>(
                    VaultError::InvalidTimeValue,
                ),
                RelativePhrase::BadNumber => r == Err::<i64, VaultError>(VaultError::InvalidNumber),
                RelativePhrase::Ago { count, unit_ms } => {
                    let off = (count as int) * (unit_ms as int);
                    if off <= i64::MAX && i64::MIN <= now_ms - off {
                        r == Ok::<i64, VaultError>((now_ms - off) as i64)
                    } else {
                        r == Err::<i64, VaultError>(VaultError::DateOutOfRange)
                    }
                },
                _ => {
                    let v = resolve_value(now_ms, p);
                    if i64::MIN <= v <= i64::MAX {
                        r == Ok::<i64, VaultError>(v as i64)
                    } else {
                        r == Err::<i64, VaultError>(VaultError::DateOutOfRange)
                    }
                },
            }
        }),
{
    let p = parse_phrase(s);
    match p {
        RelativePhrase::Unrecognized => Err(
            VaultError::CannotParseDate { input: String::from_str(s) },
        ),
        RelativePhrase::NonPositive => Err(VaultError::InvalidTimeValue),
        RelativePhrase::BadNumber => Err(VaultError::InvalidNumber),
        RelativePhrase::Today => {
            let adj = day_adjust_exec(now_ms);
            match now_ms.checked_sub(adj) {
                Some(v) => Ok(v),
                None => Err(VaultError::DateOutOfRange),
            }
        },
        RelativePhrase::Yesterday => {
            match now_ms.checked_sub(DAY_MS) {
                Some(v) => Ok(v),
                None => Err(VaultError::DateOutOfRange),
            }
        },
        RelativePhrase::LastWeek => {
            match now_ms.checked_sub(WEEK_MS) {
                Some(v) => Ok(v),
                None => Err(VaultError::DateOutOfRange),
            }
        },
        RelativePhrase::LastMonth => {
            match now_ms.checked_sub(MONTH_MS) {
                Some(v) => Ok(v),
                None => Err(VaultError::DateOutOfRange),
            }
        },
        RelativePhrase::LastYear => {
            match now_ms.checked_sub(YEAR_MS) {
                Some(v) => Ok(v),
                None => Err(VaultError::DateOutOfRange),
            }
        },
        RelativePhrase::Ago { count, unit_ms } => {
            match count.checked_mul(unit_ms) {
                None => Err(VaultError::DateOutOfRange),
                Some(off) => match now_ms.checked_sub(off) {
                    None => Err(VaultError::DateOutOfRange),
                    Some(v) => Ok(v),
                },
            }
        },
    }
}

/// How far `now` stands past the start of its day.
fn day_adjust_exec(now: i64) -> (r: i64)
    ensures
        0 <= r < 2 * DAY_MS,
        r as int == now - day_floor(now),
{
    let m = now % DAY_MS;
    if m < 0 {
        m + DAY_MS
    } else {
        m
    }
}

/// The phrase of seven days resolves, against any moment the offset fits
/// under, to exactly that moment minus seven days: strictly between eight
/// days before and six days before.
pub proof fn lemma_seven_days_ago(now: i64)
    requires
        i64::MIN <= now - 7 * DAY_MS,
    ensures
        phrase_of("7 days ago"@) == (RelativePhrase::Ago { count: 7i64, unit_ms: DAY_MS }),
        resolve_value(now, phrase_of("7 days ago"@)) == now - 7 * DAY_MS,
        now - 8 * DAY_MS < resolve_value(now, phrase_of("7 days ago"@)) < now - 6 * DAY_MS,
{
    reveal_strlit("7 days ago");
    reveal_strlit("today");
    reveal_strlit("yesterday");
    reveal_strlit("last week");
    reveal_strlit("last month");
    reveal_strlit("last year");
    reveal_strlit("days");
    reveal_strlit("day");
    reveal_strlit("ago");
    let s = "7 days ago"@;
    assert(ascii_lower_seq(s) =~= s) by {
        assert forall|t: int| 0 <= t < s.len() implies ascii_lower_seq(s)[t] == s[t] by {
            assert(ascii_lower_seq(s)[t] == ascii_lower(s[t]));
        }
    }
    assert(s != "last month"@) by {
        assert(s[0] == '7' && "last month"@[0] == 'l');
    }
    assert(skip_ws_spec(s, 0) == 0);
    assert(rstrip_idx(s, 10) == 10);
    assert(s.subrange(0, 10) =~= s);
    reveal_with_fuel(scan_digits, 3);
    assert(scan_digits(s, 0) == 1);
    reveal_with_fuel(skip_ws_spec, 4);
    assert(skip_ws_spec(s, 1) == 2);
    reveal_with_fuel(scan_word, 6);
    assert(scan_word(s, 2) == 6);
    assert(s.subrange(2, 6) =~= "days"@);
    assert(unit_ms_of(s.subrange(2, 6)) == Some(DAY_MS));
    assert(skip_ws_spec(s, 6) == 7);
    assert(s.subrange(7, 10) =~= "ago"@);
    reveal_with_fuel(dv_go, 3);
    assert(dv_go(s, 0, 1, 0) == 7);
    assert(parse_ago(s) == (RelativePhrase::Ago { count: 7i64, unit_ms: DAY_MS }));
    assert(phrase_of("7 days ago"@) == (RelativePhrase::Ago { count: 7i64, unit_ms: DAY_MS }));
}

} // verus!
