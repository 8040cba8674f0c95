//! Parsing of the string values of the configuration: sizes, durations and
//! time windows, and the inverse formatting used when the file is written back.

use vstd::prelude::*;

use crate::text::{ascii_lower, chars_of, is_digit, lower_char, lower_seq, push_char};

use super::TimeWindow;

verus! {

/// Error parsing one configuration value.
#[derive(Debug, PartialEq, Eq)]
pub enum ParseError {
    Empty,
    NoDigits(String),
    BadNumber(String),
    BadUnit { unit: String },
    Overflow(String),
    BadWindow(String),
}

/// `char::is_whitespace` (the Unicode `White_Space` property).
pub open spec fn is_ws(c: char) -> bool {
    c == ' ' || c == '\t' || c == '\n' || c == '\x0B' || c == '\x0C' || c == '\r' || c
        == '\u{85}' || c == '\u{A0}' || c == '\u{1680}' || ('\u{2000}' <= c && c <= '\u{200A}')
        || c == '\u{2028}' || c == '\u{2029}' || c == '\u{202F}' || c == '\u{205F}' || c
        == '\u{3000}'
}

pub fn is_ws_exec(c: char) -> (r: bool)
    ensures
        r == is_ws(c),
{
    c == ' ' || c == '\t' || c == '\n' || c == '\x0B' || c == '\x0C' || c == '\r' || c == '\u{85}'
        || c == '\u{A0}' || c == '\u{1680}' || ('\u{2000}' <= c && c <= '\u{200A}') || c
        == '\u{2028}' || c == '\u{2029}' || c == '\u{202F}' || c == '\u{205F}' || c == '\u{3000}'
}

/// `str::trim_start`.
pub open spec fn trim_start(s: Seq<char>) -> Seq<char>
    decreases s.len(),
{
    if s.len() > 0 && is_ws(s[0]) {
        trim_start(s.drop_first())
    } else {
        s
    }
}

/// `str::trim_end`.
pub open spec fn trim_end(s: Seq<char>) -> Seq<char>
    decreases s.len(),
{
    if s.len() > 0 && is_ws(s.last()) {
        trim_end(s.drop_last())
    } else {
        s
    }
}

/// `str::trim`.
pub open spec fn trim(s: Seq<char>) -> Seq<char> {
    trim_end(trim_start(s))
}

proof fn lemma_trim_start_skip(s: Seq<char>, i: int)
    requires
        0 <= i <= s.len(),
        forall|k: int| 0 <= k < i ==> is_ws(s[k]),
    ensures
        trim_start(s) == trim_start(s.subrange(i, s.len() as int)),
    decreases i,
{
    if i > 0 {
        assert(s.drop_first().subrange(i - 1, s.len() - 1) =~= s.subrange(i, s.len() as int));
        lemma_trim_start_skip(s.drop_first(), i - 1);
    } else {
        assert(s.subrange(0, s.len() as int) =~= s);
    }
}

proof fn lemma_trim_end_skip(s: Seq<char>, j: int)
    requires
        0 <= j <= s.len(),
        forall|k: int| j <= k < s.len() ==> is_ws(s[k]),
    ensures
        trim_end(s) == trim_end(s.subrange(0, j)),
    decreases s.len() - j,
{
    if j < s.len() {
        assert(s.drop_last().subrange(0, j) =~= s.subrange(0, j));
        lemma_trim_end_skip(s.drop_last(), j);
    } else {
        assert(s.subrange(0, s.len() as int) =~= s);
    }
}

/// `trim` of `s`.
pub fn trim_vec(s: &Vec<char>) -> (r: Vec<char>)
    ensures
        r@ == trim(s@),
{
    let n = s.len();
    let mut i: usize = 0;
    while i < n && is_ws_exec(s[i])
        invariant
            i <= n,
            n == s@.len(),
            forall|k: int| 0 <= k < i ==> is_ws(s@[k]),
        decreases n - i,
    {
        i = i + 1;
    }
    proof {
        lemma_trim_start_skip(s@, i as int);
    }
    let ghost t = s@.subrange(i as int, n as int);
    let mut j: usize = n;
    while j > i && is_ws_exec(s[j - 1])
        invariant
            i <= j <= n,
            n == s@.len(),
            t == s@.subrange(i as int, n as int),
            forall|k: int| j - i <= k < t.len() ==> is_ws(t[k]),
        decreases j,
    {
        j = j - 1;
    }
    proof {
        lemma_trim_end_skip(t, j - i);
        if i < n {
            assert(!is_ws(t[0]));
        }
        assert(trim_start(t) == t);
    }
    let mut out: Vec<char> = Vec::new();
    let mut k: usize = i;
    while k < j
        invariant
            i <= k <= j <= n,
            n == s@.len(),
            out@ == s@.subrange(i as int, k as int),
        decreases j - k,
    {
        out.push(s[k]);
        k = k + 1;
    }
    assert(out@ =~= t.subrange(0, j - i));
    out
}

/// Value of a string of decimal digits.
pub open spec fn dec_value(d: Seq<char>) -> nat
    decreases d.len(),
{
    if d.len() == 0 {
        0
    } else {
        dec_value(d.drop_last()) * 10 + ((d.last() as nat) - ('0' as nat)) as nat
    }
}

/// All characters are ASCII digits.
pub open spec fn all_digits(d: Seq<char>) -> bool {
    forall|k: int| 0 <= k < d.len() ==> is_digit(#[trigger] d[k])
}

/// Index of the first non-digit at or after `i`, or `s.len()`.
pub open spec fn digits_end(s: Seq<char>, i: int) -> int
    decreases s.len() - i,
{
    if i < 0 || i >= s.len() {
        s.len() as int
    } else if !is_digit(s[i]) {
        i
    } else {
        digits_end(s, i + 1)
    }
}

proof fn lemma_digits_end(s: Seq<char>, i: int)
    requires
        0 <= i <= s.len(),
    ensures
        i <= digits_end(s, i) <= s.len(),
        forall|k: int| i <= k < digits_end(s, i) ==> is_digit(s[k]),
        digits_end(s, i) < s.len() ==> !is_digit(s[digits_end(s, i)]),
    decreases s.len() - i,
{
    if i < s.len() && is_digit(s[i]) {
        lemma_digits_end(s, i + 1);
    }
}

/// How `split_number` ends on a trimmed value `t`.
pub enum Split {
    Empty,
    NoDigits,
    BadNumber(Seq<char>),
    Number(nat, Seq<char>),
}

/// Splits the number and the unit of `s` (after trimming).
pub open spec fn split_spec(s: Seq<char>) -> Split {
    let t = trim(s);
    let e = digits_end(t, 0);
    if t.len() == 0 {
        Split::Empty
    } else if e == 0 {
        Split::NoDigits
    } else if dec_value(t.subrange(0, e)) > u64::MAX {
        Split::BadNumber(t.subrange(0, e))
    } else {
        Split::Number(dec_value(t.subrange(0, e)), trim(t.subrange(e, t.len() as int)))
    }
}

fn vec_of_range(s: &Vec<char>, a: usize, b: usize) -> (r: Vec<char>)
    requires
        a <= b <= s@.len(),
    ensures
        r@ == s@.subrange(a as int, b as int),
{
    let mut out: Vec<char> = Vec::new();
    let mut k: usize = a;
    while k < b
        invariant
            a <= k <= b,
            b <= s@.len(),
            out@ == s@.subrange(a as int, k as int),
        decreases b - k,
    {
        out.push(s[k]);
        k = k + 1;
    }
    out
}

pub fn string_from(v: &Vec<char>) -> (r: String)
    ensures
        r@ == v@,
{
    crate::text::string_of(v)
}

/// Value of `d` (all digits), or `None` when it does not fit in a `u64`.
fn dec_value_exec(d: &Vec<char>) -> (r: Option<u64>)
    requires
        all_digits(d@),
    ensures
        match r {
            Some(v) => v == dec_value(d@),
            None => dec_value(d@) > u64::MAX,
        },
{
    let mut v: u64 = 0;
    let mut i: usize = 0;
    while i < d.len()
        invariant
            i <= d@.len(),
            all_digits(d@),
            v == dec_value(d@.subrange(0, i as int)),
        decreases d@.len() - i,
    {
        let dig = (d[i] as u32 - '0' as u32) as u64;
        assert(d@.subrange(0, i + 1).drop_last() =~= d@.subrange(0, i as int));
        if v > (u64::MAX - dig) / 10 {
            proof {
                lemma_dec_value_prefix_mono(d@, i + 1);
            }
            return None;
        }
        v = v * 10 + dig;
        i = i + 1;
    }
    assert(d@.subrange(0, d@.len() as int) =~= d@);
    Some(v)
}

proof fn lemma_dec_value_prefix_mono(d: Seq<char>, i: int)
    requires
        0 <= i <= d.len(),
        all_digits(d),
    ensures
        dec_value(d.subrange(0, i)) <= dec_value(d),
    decreases d.len() - i,
{
    if i < d.len() {
        lemma_dec_value_prefix_mono(d.drop_last(), i);
        assert(d.drop_last().subrange(0, i) =~= d.subrange(0, i));
    } else {
        assert(d.subrange(0, i) =~= d);
    }
}

/// Trims `s`, then splits the leading digits from the trimmed unit.
fn split_number(s: &Vec<char>) -> (r: Result<(u64, Vec<char>), ParseError>)
    ensures
        match split_spec(s@) {
            Split::Empty => r == Err::<(u64, Vec<char>), ParseError>(ParseError::Empty),
            Split::NoDigits => r matches Err(ParseError::NoDigits(x)) && x@ == trim(s@),
            Split::BadNumber(d) => r matches Err(ParseError::BadNumber(x)) && x@ == d,
            Split::Number(n, u) => r matches Ok((v, unit)) && v == n && unit@ == u,
        },
{
    let t = trim_vec(s);
    if t.len() == 0 {
        return Err(ParseError::Empty);
    }
    let mut e: usize = 0;
    proof {
        lemma_digits_end(t@, 0);
    }
    while e < t.len() && '0' <= t[e] && t[e] <= '9'
        invariant
            e <= t@.len(),
            digits_end(t@, 0) == digits_end(t@, e as int),
            forall|k: int| 0 <= k < e ==> is_digit(t@[k]),
        decreases t@.len() - e,
    {
        e = e + 1;
    }
    if e == 0 {
        return Err(ParseError::NoDigits(string_from(&t)));
    }
    let digits = vec_of_range(&t, 0, e);
    match dec_value_exec(&digits) {
        None => Err(ParseError::BadNumber(string_from(&digits))),
        Some(n) => {
            let rest = vec_of_range(&t, e, t.len());
            Ok((n, trim_vec(&rest)))
        },
    }
}

/// `s` lower-cased (ASCII) equals `w`.
pub open spec fn lower_eq(s: Seq<char>, w: Seq<char>) -> bool {
    s.map_values(|c: char| ascii_lower(c)) == w
}

fn lower_vec(s: &Vec<char>) -> (r: Vec<char>)
    ensures
        r@ == lower_seq(s@),
{
    let mut out: Vec<char> = Vec::new();
    let mut i: usize = 0;
    while i < s.len()
        invariant
            i <= s@.len(),
            out@ == s@.subrange(0, i as int).map_values(|c: char| ascii_lower(c)),
        decreases s@.len() - i,
    {
        out.push(lower_char(s[i]));
        assert(s@.subrange(0, i + 1).map_values(|c: char| ascii_lower(c)) =~= s@.subrange(
            0,
            i as int,
        ).map_values(|c: char| ascii_lower(c)).push(ascii_lower(s@[i as int])));
        i = i + 1;
    }
    assert(s@.subrange(0, s@.len() as int) =~= s@);
    out
}

fn is_lit(v: &Vec<char>, lit: &str) -> (r: bool)
    ensures
        r == (v@ == lit@),
{
    let w = chars_of(lit);
    crate::text::seq_eq(v, &w)
}

/// Multiplier of a size unit (already lower-cased), or `None` for an unknown one.
pub open spec fn byte_unit(u: Seq<char>) -> Option<nat> {
    if u == ""@ || u == "b"@ {
        Some(1)
    } else if u == "k"@ || u == "kb"@ || u == "kib"@ {
        Some(1024)
    } else if u == "m"@ || u == "mb"@ || u == "mib"@ {
        Some(1048576)
    } else if u == "g"@ || u == "gb"@ || u == "gib"@ {
        Some(1073741824)
    } else if u == "t"@ || u == "tb"@ || u == "tib"@ {
        Some(1099511627776)
    } else {
        None
    }
}

/// What `parse_bytes` returns.
pub enum BytesOutcome {
    Split(Split),
    BadUnit(Seq<char>),
    Overflow,
    Value(nat),
}

pub open spec fn parse_bytes_spec(s: Seq<char>) -> BytesOutcome {
    match split_spec(s) {
        Split::Number(n, u) => {
            let lu = lower_seq(u);
            match byte_unit(lu) {
                None => BytesOutcome::BadUnit(lu),
                Some(m) => if n * m > u64::MAX {
                    BytesOutcome::Overflow
                } else {
                    BytesOutcome::Value(n * m)
                },
            }
        },
        other => BytesOutcome::Split(other),
    }
}

/// The error of a failed split, as `parse_bytes` and `parse_duration_ms` report it.
pub open spec fn split_error_matches(sp: Split, s: Seq<char>, e: ParseError) -> bool {
    match sp {
        Split::Empty => e == ParseError::Empty,
        Split::NoDigits => e matches ParseError::NoDigits(x) && x@ == trim(s),
        Split::BadNumber(d) => e matches ParseError::BadNumber(x) && x@ == d,
        Split::Number(_, _) => false,
    }
}

/// Parses `"64MiB"`, `"500 GiB"`, `"1024"` (no unit = bytes) into a byte count.
pub fn parse_bytes(s: &str) -> (r: Result<u64, ParseError>)
    ensures
        match parse_bytes_spec(s@) {
            BytesOutcome::Split(sp) => r matches Err(e) && split_error_matches(sp, s@, e),
            BytesOutcome::BadUnit(u) => r matches Err(ParseError::BadUnit { unit }) && unit@ == u,
            BytesOutcome::Overflow => r matches Err(ParseError::Overflow(x)) && x@ == trim(s@),
            BytesOutcome::Value(v) => r == Ok::<u64, ParseError>(v as u64),
        },
{
    let cs = chars_of(s);
    let (n, unit) = match split_number(&cs) {
        Ok(p) => p,
        Err(e) => {
            return Err(e);
        },
    };
    let lu = lower_vec(&unit);
    let mult: u64 = if is_lit(&lu, "") || is_lit(&lu, "b") {
        1
    } else if is_lit(&lu, "k") || is_lit(&lu, "kb") || is_lit(&lu, "kib") {
        1024
    } else if is_lit(&lu, "m") || is_lit(&lu, "mb") || is_lit(&lu, "mib") {
        1024 * 1024
    } else if is_lit(&lu, "g") || is_lit(&lu, "gb") || is_lit(&lu, "gib") {
        1024 * 1024 * 1024
    } else if is_lit(&lu, "t") || is_lit(&lu, "tb") || is_lit(&lu, "tib") {
        1024 * 1024 * 1024 * 1024
    } else {
        return Err(ParseError::BadUnit { unit: string_from(&lu) });
    };
    match n.checked_mul(mult) {
        Some(v) => Ok(v),
        None => Err(ParseError::Overflow(string_from(&trim_vec(&cs)))),
    }
}

/// Multiplier of a duration unit in milliseconds (lower-cased), or `None`.
pub open spec fn duration_unit(u: Seq<char>) -> Option<nat> {
    if u == "ms"@ {
        Some(1)
    } else if u == ""@ || u == "s"@ || u == "sec"@ {
        Some(1000)
    } else if u == "m"@ || u == "min"@ {
        Some(60000)
    } else if u == "h"@ || u == "hr"@ {
        Some(3600000)
    } else if u == "d"@ || u == "day"@ {
        Some(86400000)
    } else {
        None
    }
}

pub open spec fn parse_duration_spec(s: Seq<char>) -> BytesOutcome {
    match split_spec(s) {
        Split::Number(n, u) => {
            let lu = lower_seq(u);
            match duration_unit(lu) {
                None => BytesOutcome::BadUnit(lu),
                Some(m) => if n * m > i64::MAX {
                    BytesOutcome::Overflow
                } else {
                    BytesOutcome::Value(n * m)
                },
            }
        },
        other => BytesOutcome::Split(other),
    }
}

/// Parses `"15m"`, `"6h"`, `"500ms"`, `"7d"` (no unit = seconds) into milliseconds.
pub fn parse_duration_ms(s: &str) -> (r: Result<i64, ParseError>)
    ensures
        match parse_duration_spec(s@) {
            BytesOutcome::Split(sp) => r matches Err(e) && split_error_matches(sp, s@, e),
            BytesOutcome::BadUnit(u) => r matches Err(ParseError::BadUnit { unit }) && unit@ == u,
            BytesOutcome::Overflow => r matches Err(ParseError::Overflow(x)) && x@ == trim(s@),
            BytesOutcome::Value(v) => r == Ok::<i64, ParseError>(v as i64),
        },
{
    let cs = chars_of(s);
    let (n, unit) = match split_number(&cs) {
        Ok(p) => p,
        Err(e) => {
            return Err(e);
        },
    };
    let lu = lower_vec(&unit);
    let mult: u64 = if is_lit(&lu, "ms") {
        1
    } else if is_lit(&lu, "") || is_lit(&lu, "s") || is_lit(&lu, "sec") {
        1000
    } else if is_lit(&lu, "m") || is_lit(&lu, "min") {
        60 * 1000
    } else if is_lit(&lu, "h") || is_lit(&lu, "hr") {
        60 * 60 * 1000
    } else if is_lit(&lu, "d") || is_lit(&lu, "day") {
        24 * 60 * 60 * 1000
    } else {
        return Err(ParseError::BadUnit { unit: string_from(&lu) });
    };
    match n.checked_mul(mult) {
        Some(v) => if v <= i64::MAX as u64 {
            Ok(v as i64)
        } else {
            Err(ParseError::Overflow(string_from(&trim_vec(&cs))))
        },
        None => Err(ParseError::Overflow(string_from(&trim_vec(&cs)))),
    }
}


/// Index of the first `c` in `s` at or after `i`, or `s.len()`.
pub open spec fn find_from(s: Seq<char>, c: char, i: int) -> int
    decreases s.len() - i,
{
    if i < 0 || i >= s.len() {
        s.len() as int
    } else if s[i] == c {
        i
    } else {
        find_from(s, c, i + 1)
    }
}

proof fn lemma_find_from(s: Seq<char>, c: char, i: int)
    requires
        0 <= i <= s.len(),
    ensures
        i <= find_from(s, c, i) <= s.len(),
        forall|k: int| i <= k < find_from(s, c, i) ==> s[k] != c,
        find_from(s, c, i) < s.len() ==> s[find_from(s, c, i)] == c,
    decreases s.len() - i,
{
    if i < s.len() && s[i] != c {
        lemma_find_from(s, c, i + 1);
    }
}

fn find_char(s: &Vec<char>, c: char) -> (r: usize)
    ensures
        r == find_from(s@, c, 0),
{
    proof {
        lemma_find_from(s@, c, 0);
    }
    let mut i: usize = 0;
    while i < s.len() && s[i] != c
        invariant
            i <= s@.len(),
            find_from(s@, c, 0) == find_from(s@, c, i as int),
        decreases s@.len() - i,
    {
        i = i + 1;
    }
    i
}

/// `u16::from_str`: an optional `+`, then one or more ASCII digits whose
/// value fits in a `u16`.
pub open spec fn parse_u16_spec(t: Seq<char>) -> Option<nat> {
    let d = if t.len() > 0 && t[0] == '+' {
        t.drop_first()
    } else {
        t
    };
    if d.len() == 0 || !all_digits(d) || dec_value(d) > u16::MAX {
        None
    } else {
        Some(dec_value(d))
    }
}

fn parse_u16(t: &Vec<char>) -> (r: Option<u16>)
    ensures
        match parse_u16_spec(t@) {
            Some(v) => r == Some(v as u16),
            None => r is None,
        },
{
    let start: usize = if t.len() > 0 && t[0] == '+' {
        1
    } else {
        0
    };
    let d = vec_of_range(t, start, t.len());
    assert(start == 1 ==> d@ =~= t@.drop_first());
    assert(start == 0 ==> d@ =~= t@);
    if d.len() == 0 {
        return None;
    }
    let mut i: usize = 0;
    while i < d.len()
        invariant
            i <= d@.len(),
            forall|k: int| 0 <= k < i ==> is_digit(d@[k]),
            d@ == (if t@.len() > 0 && t@[0] == '+' {
                t@.drop_first()
            } else {
                t@
            }),
        decreases d@.len() - i,
    {
        if !('0' <= d[i] && d[i] <= '9') {
            assert(!is_digit(d@[i as int]));
            return None;
        }
        i = i + 1;
    }
    match dec_value_exec(&d) {
        Some(v) => if v <= 65535 {
            Some(v as u16)
        } else {
            None
        },
        None => None,
    }
}

/// Minutes of the day written `HH:MM` (each part trimmed), or `None`.
pub open spec fn clock_minutes(t: Seq<char>) -> Option<nat> {
    let tt = trim(t);
    let j = find_from(tt, ':', 0);
    if j >= tt.len() {
        None
    } else {
        match (
            parse_u16_spec(trim(tt.subrange(0, j))),
            parse_u16_spec(trim(tt.subrange(j + 1, tt.len() as int))),
        ) {
            (Some(h), Some(m)) => if h > 23 || m > 59 {
                None
            } else {
                Some(h * 60 + m)
            },
            _ => None,
        }
    }
}

/// The window written in `s` as `HH:MM-HH:MM`, split at the first `-`;
/// `None` where the text is refused, an empty window among them.
pub open spec fn window_spec(s: Seq<char>) -> Option<(nat, nat)> {
    let i = find_from(s, '-', 0);
    if i >= s.len() {
        None
    } else {
        match (clock_minutes(s.subrange(0, i)), clock_minutes(s.subrange(i + 1, s.len() as int))) {
            (Some(a), Some(b)) => if a == b {
                None
            } else {
                Some((a, b))
            },
            _ => None,
        }
    }
}

fn clock_minutes_exec(t: &Vec<char>) -> (r: Option<u16>)
    ensures
        match clock_minutes(t@) {
            Some(v) => r == Some(v as u16),
            None => r is None,
        },
{
    let tt = trim_vec(t);
    let j = find_char(&tt, ':');
    proof {
        lemma_find_from(tt@, ':', 0);
    }
    if j >= tt.len() {
        return None;
    }
    let hv = vec_of_range(&tt, 0, j);
    let mv = vec_of_range(&tt, j + 1, tt.len());
    let h = parse_u16(&trim_vec(&hv));
    let m = parse_u16(&trim_vec(&mv));
    match (h, m) {
        (Some(h), Some(m)) => if h > 23 || m > 59 {
            None
        } else {
            Some(h * 60 + m)
        },
        _ => None,
    }
}

/// Parses `"01:00-06:00"` into a window in minutes of the day.
pub fn parse_window(s: &str) -> (r: Result<TimeWindow, ParseError>)
    ensures
        match window_spec(s@) {
            Some((a, b)) => r == Ok::<TimeWindow, ParseError>(
                TimeWindow { start_min: a as u16, end_min: b as u16 },
            ),
            None => r matches Err(ParseError::BadWindow(x)) && x@ == s@,
        },
{
    let cs = chars_of(s);
    let i = find_char(&cs, '-');
    proof {
        lemma_find_from(cs@, '-', 0);
    }
    if i >= cs.len() {
        return Err(ParseError::BadWindow(string_from(&cs)));
    }
    let a = clock_minutes_exec(&vec_of_range(&cs, 0, i));
    let b = clock_minutes_exec(&vec_of_range(&cs, i + 1, cs.len()));
    match (a, b) {
        (Some(a), Some(b)) => if a == b {
            Err(ParseError::BadWindow(string_from(&cs)))
        } else {
            Ok(TimeWindow { start_min: a, end_min: b })
        },
        _ => Err(ParseError::BadWindow(string_from(&cs))),
    }
}


/// The decimal digit of `d` (below ten).
pub open spec fn digit_char(d: nat) -> char {
    ((d + 48) as u32) as char
}

/// Decimal notation of `n`, without leading zeros.
pub open spec fn dec_chars(n: nat) -> Seq<char>
    decreases n,
{
    if n < 10 {
        seq![digit_char(n)]
    } else {
        dec_chars(n / 10).push(digit_char(n % 10))
    }
}

proof fn lemma_digit_char(d: nat)
    requires
        d < 10,
    ensures
        is_digit(digit_char(d)),
        (digit_char(d) as nat) - ('0' as nat) == d,
{
    let c = digit_char(d);
    assert(c as u32 == d + 48);
}

proof fn lemma_dec_chars(n: nat)
    ensures
        dec_chars(n).len() >= 1,
        all_digits(dec_chars(n)),
        dec_value(dec_chars(n)) == n,
    decreases n,
{
    lemma_digit_char(n % 10);
    if n >= 10 {
        lemma_dec_chars(n / 10);
        let p = dec_chars(n / 10);
        let q = p.push(digit_char(n % 10));
        assert(q.drop_last() =~= p);
        assert((n / 10) * 10 + n % 10 == n) by (nonlinear_arith);
        assert(dec_value(q) == dec_value(p) * 10 + n % 10);
        assert forall|k: int| 0 <= k < q.len() implies is_digit(#[trigger] q[k]) by {
            if k < p.len() {
                assert(q[k] == p[k]);
            }
        }
    } else {
        let q = dec_chars(n);
        assert(q.drop_last() =~= Seq::<char>::empty());
        assert(dec_value(q.drop_last()) == 0);
        assert(dec_value(q) == n);
    }
}

fn digit_of(d: u64) -> (c: char)
    requires
        d < 10,
    ensures
        c == digit_char(d as nat),
{
    let b: u8 = (d as u8) + 48;
    b as char
}

/// The decimal digits of `n`.
pub fn dec_vec(n: u64) -> (v: Vec<char>)
    ensures
        v@ == dec_chars(n as nat),
    decreases n,
{
    if n < 10 {
        let mut v: Vec<char> = Vec::new();
        v.push(digit_of(n));
        assert(v@ =~= dec_chars(n as nat));
        v
    } else {
        let mut v = dec_vec(n / 10);
        v.push(digit_of(n % 10));
        v
    }
}

fn push_all(v: &mut Vec<char>, s: &str)
    ensures
        final(v)@ == old(v)@ + s@,
{
    let w = chars_of(s);
    let mut i: usize = 0;
    while i < w.len()
        invariant
            i <= w@.len(),
            w@ == s@,
            v@ == old(v)@ + w@.subrange(0, i as int),
        decreases w@.len() - i,
    {
        v.push(w[i]);
        i = i + 1;
    }
    assert(w@.subrange(0, w@.len() as int) =~= w@);
}

pub const TIB: u64 = 1099511627776;

pub const GIB: u64 = 1073741824;

pub const MIB: u64 = 1048576;

pub const KIB: u64 = 1024;

/// The shortest of `NTiB`, `NGiB`, `NMiB`, `NKiB` that is exact, else `NB`.
pub open spec fn format_bytes_spec(n: nat) -> Seq<char> {
    let (t, g, m, k) = (TIB as nat, GIB as nat, MIB as nat, KIB as nat);
    if n >= t && n % t == 0 {
        dec_chars(n / t) + "TiB"@
    } else if n >= g && n % g == 0 {
        dec_chars(n / g) + "GiB"@
    } else if n >= m && n % m == 0 {
        dec_chars(n / m) + "MiB"@
    } else if n >= k && n % k == 0 {
        dec_chars(n / k) + "KiB"@
    } else {
        dec_chars(n) + "B"@
    }
}

/// Writes a byte count back in its shortest exact unit.
pub fn format_bytes(n: u64) -> (r: String)
    ensures
        r@ == format_bytes_spec(n as nat),
{
    let mult: u64;
    let name: &str;
    if n >= 1099511627776 && n % 1099511627776 == 0 {
        mult = 1099511627776;
        name = "TiB";
    } else if n >= 1073741824 && n % 1073741824 == 0 {
        mult = 1073741824;
        name = "GiB";
    } else if n >= 1048576 && n % 1048576 == 0 {
        mult = 1048576;
        name = "MiB";
    } else if n >= 1024 && n % 1024 == 0 {
        mult = 1024;
        name = "KiB";
    } else {
        mult = 1;
        name = "B";
    }
    let mut v = dec_vec(n / mult);
    push_all(&mut v, name);
    string_from(&v)
}

pub const DAY_MS: i64 = 86400000;

pub const HOUR_MS: i64 = 3600000;

pub const MINUTE_MS: i64 = 60000;

pub const SECOND_MS: i64 = 1000;

/// Decimal notation of a signed number.
pub open spec fn int_chars(x: int) -> Seq<char> {
    if x < 0 {
        seq!['-'] + dec_chars((-x) as nat)
    } else {
        dec_chars(x as nat)
    }
}

/// The largest of `Nd`, `Nh`, `Nm`, `Ns` that is exact, else `Nms`.
pub open spec fn format_duration_spec(ms: int) -> Seq<char> {
    let (d, h, m, x) = (DAY_MS as int, HOUR_MS as int, MINUTE_MS as int, SECOND_MS as int);
    if ms >= d && ms % d == 0 {
        dec_chars((ms / d) as nat) + "d"@
    } else if ms >= h && ms % h == 0 {
        dec_chars((ms / h) as nat) + "h"@
    } else if ms >= m && ms % m == 0 {
        dec_chars((ms / m) as nat) + "m"@
    } else if ms >= x && ms % x == 0 {
        dec_chars((ms / x) as nat) + "s"@
    } else {
        int_chars(ms) + "ms"@
    }
}

/// Writes milliseconds back in their largest exact unit.
pub fn format_duration(ms: i64) -> (r: String)
    ensures
        r@ == format_duration_spec(ms as int),
{
    let mut v: Vec<char>;
    if ms >= 86400000 && ms % 86400000 == 0 {
        v = dec_vec((ms / 86400000) as u64);
        push_all(&mut v, "d");
    } else if ms >= 3600000 && ms % 3600000 == 0 {
        v = dec_vec((ms / 3600000) as u64);
        push_all(&mut v, "h");
    } else if ms >= 60000 && ms % 60000 == 0 {
        v = dec_vec((ms / 60000) as u64);
        push_all(&mut v, "m");
    } else if ms >= 1000 && ms % 1000 == 0 {
        v = dec_vec((ms / 1000) as u64);
        push_all(&mut v, "s");
    } else {
        if ms < 0 {
            let mag: u64 = if ms == i64::MIN {
                9223372036854775808
            } else {
                (-ms) as u64
            };
            v = Vec::new();
            v.push('-');
            let d = dec_vec(mag);
            let mut k: usize = 0;
            while k < d.len()
                invariant
                    k <= d@.len(),
                    v@ == seq!['-'] + d@.subrange(0, k as int),
                decreases d@.len() - k,
            {
                v.push(d[k]);
                k = k + 1;
            }
            assert(d@.subrange(0, d@.len() as int) =~= d@);
        } else {
            v = dec_vec(ms as u64);
        }
        push_all(&mut v, "ms");
    }
    string_from(&v)
}


proof fn lemma_trim_plain(s: Seq<char>)
    requires
        s.len() > 0,
        !is_ws(s[0]),
        !is_ws(s.last()),
    ensures
        trim(s) == s,
{
    assert(trim_start(s) == s);
}

proof fn lemma_digits_end_at(s: Seq<char>, i: int, l: int)
    requires
        0 <= i <= l < s.len(),
        forall|k: int| i <= k < l ==> is_digit(s[k]),
        !is_digit(s[l]),
    ensures
        digits_end(s, i) == l,
    decreases l - i,
{
    if i < l {
        lemma_digits_end_at(s, i + 1, l);
    }
}

/// A number written in decimal and followed by a unit that starts with a
/// letter splits back into that number and that unit.
proof fn lemma_split_written(q: nat, u: Seq<char>)
    requires
        u.len() > 0,
        !is_digit(u[0]),
        !is_ws(u[0]),
        !is_ws(u.last()),
        q <= u64::MAX,
    ensures
        split_spec(dec_chars(q) + u) == Split::Number(q, u),
{
    lemma_dec_chars(q);
    let d = dec_chars(q);
    let s = d + u;
    let l = d.len() as int;
    assert(is_digit(d[0]));
    assert(s[0] == d[0]);
    assert(s.last() == u.last());
    lemma_trim_plain(s);
    assert(s[l] == u[0]);
    assert forall|k: int| 0 <= k < l implies is_digit(s[k]) by {
        assert(s[k] == d[k]);
    }
    lemma_digits_end_at(s, 0, l);
    assert(s.subrange(0, l) =~= d);
    assert(s.subrange(l, s.len() as int) =~= u);
    lemma_trim_plain(u);
}

proof fn lemma_byte_units()
    ensures
        byte_unit("tib"@) == Some(TIB as nat),
        byte_unit("gib"@) == Some(GIB as nat),
        byte_unit("mib"@) == Some(MIB as nat),
        byte_unit("kib"@) == Some(KIB as nat),
        byte_unit("b"@) == Some(1nat),
{
    reveal_strlit("");
    reveal_strlit("b");
    reveal_strlit("k");
    reveal_strlit("kb");
    reveal_strlit("kib");
    reveal_strlit("m");
    reveal_strlit("mb");
    reveal_strlit("mib");
    reveal_strlit("g");
    reveal_strlit("gb");
    reveal_strlit("gib");
    reveal_strlit("t");
    reveal_strlit("tb");
    reveal_strlit("tib");
    assert(""@.len() == 0);
    assert("b"@.len() == 1);
    assert("b"@[0] == 'b');
    assert("k"@.len() == 1);
    assert("k"@[0] == 'k');
    assert("kb"@.len() == 2);
    assert("kb"@[0] == 'k');
    assert("kb"@[1] == 'b');
    assert("kib"@.len() == 3);
    assert("kib"@[0] == 'k');
    assert("kib"@[1] == 'i');
    assert("kib"@[2] == 'b');
    assert("m"@.len() == 1);
    assert("m"@[0] == 'm');
    assert("mb"@.len() == 2);
    assert("mb"@[0] == 'm');
    assert("mb"@[1] == 'b');
    assert("mib"@.len() == 3);
    assert("mib"@[0] == 'm');
    assert("mib"@[1] == 'i');
    assert("mib"@[2] == 'b');
    assert("g"@.len() == 1);
    assert("g"@[0] == 'g');
    assert("gb"@.len() == 2);
    assert("gb"@[0] == 'g');
    assert("gb"@[1] == 'b');
    assert("gib"@.len() == 3);
    assert("gib"@[0] == 'g');
    assert("gib"@[1] == 'i');
    assert("gib"@[2] == 'b');
    assert("t"@.len() == 1);
    assert("t"@[0] == 't');
    assert("tb"@.len() == 2);
    assert("tb"@[0] == 't');
    assert("tb"@[1] == 'b');
    assert("tib"@.len() == 3);
    assert("tib"@[0] == 't');
    assert("tib"@[1] == 'i');
    assert("tib"@[2] == 'b');
}

proof fn lemma_duration_units()
    ensures
        duration_unit("d"@) == Some(DAY_MS as nat),
        duration_unit("h"@) == Some(HOUR_MS as nat),
        duration_unit("m"@) == Some(MINUTE_MS as nat),
        duration_unit("s"@) == Some(SECOND_MS as nat),
        duration_unit("ms"@) == Some(1nat),
{
    reveal_strlit("ms");
    reveal_strlit("");
    reveal_strlit("s");
    reveal_strlit("sec");
    reveal_strlit("m");
    reveal_strlit("min");
    reveal_strlit("h");
    reveal_strlit("hr");
    reveal_strlit("d");
    reveal_strlit("day");
    assert("ms"@.len() == 2);
    assert("ms"@[0] == 'm');
    assert("ms"@[1] == 's');
    assert(""@.len() == 0);
    assert("s"@.len() == 1);
    assert("s"@[0] == 's');
    assert("sec"@.len() == 3);
    assert("sec"@[0] == 's');
    assert("sec"@[1] == 'e');
    assert("sec"@[2] == 'c');
    assert("m"@.len() == 1);
    assert("m"@[0] == 'm');
    assert("min"@.len() == 3);
    assert("min"@[0] == 'm');
    assert("min"@[1] == 'i');
    assert("min"@[2] == 'n');
    assert("h"@.len() == 1);
    assert("h"@[0] == 'h');
    assert("hr"@.len() == 2);
    assert("hr"@[0] == 'h');
    assert("hr"@[1] == 'r');
    assert("d"@.len() == 1);
    assert("d"@[0] == 'd');
    assert("day"@.len() == 3);
    assert("day"@[0] == 'd');
    assert("day"@[1] == 'a');
    assert("day"@[2] == 'y');
}

proof fn lemma_bytes_written(q: nat, u: Seq<char>, m: nat)
    requires
        u.len() > 0,
        !is_digit(u[0]),
        !is_ws(u[0]),
        !is_ws(u.last()),
        byte_unit(lower_seq(u)) == Some(m),
        q * m <= u64::MAX,
        m >= 1,
    ensures
        parse_bytes_spec(dec_chars(q) + u) == BytesOutcome::Value(q * m),
{
    assert(q <= q * m) by (nonlinear_arith) requires m >= 1;
    lemma_split_written(q, u);
}

/// Writing a byte count and parsing it back gives the same count.
pub proof fn lemma_format_bytes_roundtrip(n: u64)
    ensures
        parse_bytes_spec(format_bytes_spec(n as nat)) == BytesOutcome::Value(n as nat),
{
    reveal_strlit("TiB");
    reveal_strlit("GiB");
    reveal_strlit("MiB");
    reveal_strlit("KiB");
    reveal_strlit("B");
    reveal_strlit("tib");
    reveal_strlit("gib");
    reveal_strlit("mib");
    reveal_strlit("kib");
    reveal_strlit("b");
    lemma_byte_units();
    let x = n as nat;
    let (t, g, m, k) = (TIB as nat, GIB as nat, MIB as nat, KIB as nat);
    if x >= t && x % t == 0 {
        assert((x / t) * t == x) by (nonlinear_arith) requires x % t == 0, t > 0;
        assert(lower_seq("TiB"@) =~= "tib"@);
        lemma_bytes_written(x / t, "TiB"@, t);
    } else if x >= g && x % g == 0 {
        assert((x / g) * g == x) by (nonlinear_arith) requires x % g == 0, g > 0;
        assert(lower_seq("GiB"@) =~= "gib"@);
        lemma_bytes_written(x / g, "GiB"@, g);
    } else if x >= m && x % m == 0 {
        assert((x / m) * m == x) by (nonlinear_arith) requires x % m == 0, m > 0;
        assert(lower_seq("MiB"@) =~= "mib"@);
        lemma_bytes_written(x / m, "MiB"@, m);
    } else if x >= k && x % k == 0 {
        assert((x / k) * k == x) by (nonlinear_arith) requires x % k == 0, k > 0;
        assert(lower_seq("KiB"@) =~= "kib"@);
        lemma_bytes_written(x / k, "KiB"@, k);
    } else {
        assert(lower_seq("B"@) =~= "b"@);
        lemma_bytes_written(x, "B"@, 1);
    }
}

proof fn lemma_duration_written(q: nat, u: Seq<char>, m: nat)
    requires
        u.len() > 0,
        !is_digit(u[0]),
        !is_ws(u[0]),
        !is_ws(u.last()),
        duration_unit(lower_seq(u)) == Some(m),
        q * m <= i64::MAX,
        m >= 1,
    ensures
        parse_duration_spec(dec_chars(q) + u) == BytesOutcome::Value(q * m),
{
    assert(q <= q * m) by (nonlinear_arith) requires m >= 1;
    lemma_split_written(q, u);
}

/// Writing a non-negative duration and parsing it back gives the same
/// number of milliseconds.
pub proof fn lemma_format_duration_roundtrip(ms: i64)
    requires
        ms >= 0,
    ensures
        parse_duration_spec(format_duration_spec(ms as int)) == BytesOutcome::Value(ms as nat),
{
    reveal_strlit("d");
    reveal_strlit("h");
    reveal_strlit("m");
    reveal_strlit("s");
    reveal_strlit("ms");
    lemma_duration_units();
    let x = ms as int;
    let (d, h, m, k) = (DAY_MS as int, HOUR_MS as int, MINUTE_MS as int, SECOND_MS as int);
    if x >= d && x % d == 0 {
        assert((x / d) * d == x) by (nonlinear_arith) requires x % d == 0, d > 0;
        assert(lower_seq("d"@) =~= "d"@);
        lemma_duration_written((x / d) as nat, "d"@, d as nat);
    } else if x >= h && x % h == 0 {
        assert((x / h) * h == x) by (nonlinear_arith) requires x % h == 0, h > 0;
        assert(lower_seq("h"@) =~= "h"@);
        lemma_duration_written((x / h) as nat, "h"@, h as nat);
    } else if x >= m && x % m == 0 {
        assert((x / m) * m == x) by (nonlinear_arith) requires x % m == 0, m > 0;
        assert(lower_seq("m"@) =~= "m"@);
        lemma_duration_written((x / m) as nat, "m"@, m as nat);
    } else if x >= k && x % k == 0 {
        assert((x / k) * k == x) by (nonlinear_arith) requires x % k == 0, k > 0;
        assert(lower_seq("s"@) =~= "s"@);
        lemma_duration_written((x / k) as nat, "s"@, k as nat);
    } else {
        assert(lower_seq("ms"@) =~= "ms"@);
        assert(int_chars(x) == dec_chars(x as nat));
        lemma_duration_written(x as nat, "ms"@, 1);
    }
}

/// The text of a parse error.
pub open spec fn parse_message(e: ParseError) -> Seq<char> {
    match e {
        ParseError::Empty => "giá trị rỗng"@,
        ParseError::NoDigits(v) => "thiếu chữ số ở "@ + crate::text::str_debug(v@),
        ParseError::BadNumber(v) => "số không hợp lệ ở "@ + crate::text::str_debug(v@),
        ParseError::BadUnit { unit } => "đơn vị không hợp lệ "@ + crate::text::str_debug(unit@)
            + " (dùng B/KiB/MiB/GiB/TiB hoặc ms/s/m/h/d)"@,
        ParseError::Overflow(v) => "giá trị quá lớn: "@ + crate::text::str_debug(v@),
        ParseError::BadWindow(v) => "khung giờ phải có dạng \"HH:MM-HH:MM\", nhận "@ + crate::text::str_debug(
            v@,
        ),
    }
}

impl ParseError {
    /// The text of the error.
    pub fn message(&self) -> (r: String)
        ensures
            r@ == parse_message(*self),
    {
        match self {
            ParseError::Empty => "giá trị rỗng".to_owned(),
            ParseError::NoDigits(v) => crate::text::concat_str("thiếu chữ số ở ", crate::text::debug_quoted(v.as_str()).as_str()),
            ParseError::BadNumber(v) => crate::text::concat_str("số không hợp lệ ở ", crate::text::debug_quoted(v.as_str()).as_str()),
            ParseError::BadUnit { unit } => crate::text::concat3(
                "đơn vị không hợp lệ ",
                crate::text::debug_quoted(unit.as_str()).as_str(),
                " (dùng B/KiB/MiB/GiB/TiB hoặc ms/s/m/h/d)",
            ),
            ParseError::Overflow(v) => crate::text::concat_str("giá trị quá lớn: ", crate::text::debug_quoted(v.as_str()).as_str()),
            ParseError::BadWindow(v) => crate::text::concat_str(
                "khung giờ phải có dạng \"HH:MM-HH:MM\", nhận ",
                crate::text::debug_quoted(v.as_str()).as_str(),
            ),
        }
    }
}

/// `prefix`, the decimal digits of `n`, then `suffix`.
pub fn with_u64(prefix: &str, n: u64, suffix: &str) -> (r: String)
    ensures
        r@ == prefix@ + dec_chars(n as nat) + suffix@,
{
    let d = dec_vec(n);
    let ds = string_from(&d);
    crate::text::concat3(prefix, ds.as_str(), suffix)
}

/// Each spelling of a duration unit, in either case, has its multiplier:
/// `ms` 1, `s` and `sec` a second (1000), `m` and `min` a minute (60000),
/// `h` and `hr` an hour (3600000), `d` and `day` a day (86400000); a bare
/// number is seconds.
pub proof fn lemma_duration_unit_spellings(q: nat)
    ensures
        q * 1 <= i64::MAX ==> parse_duration_spec(dec_chars(q) + "ms"@) == BytesOutcome::Value(q * 1),
        q * 1 <= i64::MAX ==> parse_duration_spec(dec_chars(q) + "MS"@) == BytesOutcome::Value(q * 1),
        q * 1000 <= i64::MAX ==> parse_duration_spec(dec_chars(q) + "s"@) == BytesOutcome::Value(q * 1000),
        q * 1000 <= i64::MAX ==> parse_duration_spec(dec_chars(q) + "S"@) == BytesOutcome::Value(q * 1000),
        q * 1000 <= i64::MAX ==> parse_duration_spec(dec_chars(q) + "sec"@) == BytesOutcome::Value(q * 1000),
        q * 1000 <= i64::MAX ==> parse_duration_spec(dec_chars(q) + "SEC"@) == BytesOutcome::Value(q * 1000),
        q * 60000 <= i64::MAX ==> parse_duration_spec(dec_chars(q) + "m"@) == BytesOutcome::Value(q * 60000),
        q * 60000 <= i64::MAX ==> parse_duration_spec(dec_chars(q) + "M"@) == BytesOutcome::Value(q * 60000),
        q * 60000 <= i64::MAX ==> parse_duration_spec(dec_chars(q) + "min"@) == BytesOutcome::Value(q * 60000),
        q * 60000 <= i64::MAX ==> parse_duration_spec(dec_chars(q) + "MIN"@) == BytesOutcome::Value(q * 60000),
        q * 3600000 <= i64::MAX ==> parse_duration_spec(dec_chars(q) + "h"@) == BytesOutcome::Value(q * 3600000),
        q * 3600000 <= i64::MAX ==> parse_duration_spec(dec_chars(q) + "H"@) == BytesOutcome::Value(q * 3600000),
        q * 3600000 <= i64::MAX ==> parse_duration_spec(dec_chars(q) + "hr"@) == BytesOutcome::Value(q * 3600000),
        q * 3600000 <= i64::MAX ==> parse_duration_spec(dec_chars(q) + "HR"@) == BytesOutcome::Value(q * 3600000),
        q * 86400000 <= i64::MAX ==> parse_duration_spec(dec_chars(q) + "d"@) == BytesOutcome::Value(q * 86400000),
        q * 86400000 <= i64::MAX ==> parse_duration_spec(dec_chars(q) + "D"@) == BytesOutcome::Value(q * 86400000),
        q * 86400000 <= i64::MAX ==> parse_duration_spec(dec_chars(q) + "day"@) == BytesOutcome::Value(q * 86400000),
        q * 86400000 <= i64::MAX ==> parse_duration_spec(dec_chars(q) + "DAY"@) == BytesOutcome::Value(q * 86400000),
        q * 1000 <= i64::MAX ==> parse_duration_spec(dec_chars(q)) == BytesOutcome::Value(q * 1000),
{
    reveal_strlit("");
    reveal_strlit("MS");
    assert("MS"@.len() == 2);
    assert("MS"@[0] == 'M');
    assert("MS"@[1] == 'S');
    reveal_strlit("ms");
    assert("ms"@.len() == 2);
    assert("ms"@[0] == 'm');
    assert("ms"@[1] == 's');
    reveal_strlit("S");
    assert("S"@.len() == 1);
    assert("S"@[0] == 'S');
    reveal_strlit("s");
    assert("s"@.len() == 1);
    assert("s"@[0] == 's');
    reveal_strlit("SEC");
    assert("SEC"@.len() == 3);
    assert("SEC"@[0] == 'S');
    assert("SEC"@[1] == 'E');
    assert("SEC"@[2] == 'C');
    reveal_strlit("sec");
    assert("sec"@.len() == 3);
    assert("sec"@[0] == 's');
    assert("sec"@[1] == 'e');
    assert("sec"@[2] == 'c');
    reveal_strlit("M");
    assert("M"@.len() == 1);
    assert("M"@[0] == 'M');
    reveal_strlit("m");
    assert("m"@.len() == 1);
    assert("m"@[0] == 'm');
    reveal_strlit("MIN");
    assert("MIN"@.len() == 3);
    assert("MIN"@[0] == 'M');
    assert("MIN"@[1] == 'I');
    assert("MIN"@[2] == 'N');
    reveal_strlit("min");
    assert("min"@.len() == 3);
    assert("min"@[0] == 'm');
    assert("min"@[1] == 'i');
    assert("min"@[2] == 'n');
    reveal_strlit("H");
    assert("H"@.len() == 1);
    assert("H"@[0] == 'H');
    reveal_strlit("h");
    assert("h"@.len() == 1);
    assert("h"@[0] == 'h');
    reveal_strlit("HR");
    assert("HR"@.len() == 2);
    assert("HR"@[0] == 'H');
    assert("HR"@[1] == 'R');
    reveal_strlit("hr");
    assert("hr"@.len() == 2);
    assert("hr"@[0] == 'h');
    assert("hr"@[1] == 'r');
    reveal_strlit("D");
    assert("D"@.len() == 1);
    assert("D"@[0] == 'D');
    reveal_strlit("d");
    assert("d"@.len() == 1);
    assert("d"@[0] == 'd');
    reveal_strlit("DAY");
    assert("DAY"@.len() == 3);
    assert("DAY"@[0] == 'D');
    assert("DAY"@[1] == 'A');
    assert("DAY"@[2] == 'Y');
    reveal_strlit("day");
    assert("day"@.len() == 3);
    assert("day"@[0] == 'd');
    assert("day"@[1] == 'a');
    assert("day"@[2] == 'y');
    if q * 1 <= i64::MAX {
        assert(lower_seq("ms"@) =~= "ms"@);
        assert(duration_unit("ms"@) == Some(1nat));
        lemma_duration_written(q, "ms"@, 1);
    }
    if q * 1 <= i64::MAX {
        assert(lower_seq("MS"@) =~= "ms"@);
        assert(duration_unit("ms"@) == Some(1nat));
        lemma_duration_written(q, "MS"@, 1);
    }
    if q * 1000 <= i64::MAX {
        assert(lower_seq("s"@) =~= "s"@);
        assert(duration_unit("s"@) == Some(1000nat));
        lemma_duration_written(q, "s"@, 1000);
    }
    if q * 1000 <= i64::MAX {
        assert(lower_seq("S"@) =~= "s"@);
        assert(duration_unit("s"@) == Some(1000nat));
        lemma_duration_written(q, "S"@, 1000);
    }
    if q * 1000 <= i64::MAX {
        assert(lower_seq("sec"@) =~= "sec"@);
        assert(duration_unit("sec"@) == Some(1000nat));
        lemma_duration_written(q, "sec"@, 1000);
    }
    if q * 1000 <= i64::MAX {
        assert(lower_seq("SEC"@) =~= "sec"@);
        assert(duration_unit("sec"@) == Some(1000nat));
        lemma_duration_written(q, "SEC"@, 1000);
    }
    if q * 60000 <= i64::MAX {
        assert(lower_seq("m"@) =~= "m"@);
        assert(duration_unit("m"@) == Some(60000nat));
        lemma_duration_written(q, "m"@, 60000);
    }
    if q * 60000 <= i64::MAX {
        assert(lower_seq("M"@) =~= "m"@);
        assert(duration_unit("m"@) == Some(60000nat));
        lemma_duration_written(q, "M"@, 60000);
    }
    if q * 60000 <= i64::MAX {
        assert(lower_seq("min"@) =~= "min"@);
        assert(duration_unit("min"@) == Some(60000nat));
        lemma_duration_written(q, "min"@, 60000);
    }
    if q * 60000 <= i64::MAX {
        assert(lower_seq("MIN"@) =~= "min"@);
        assert(duration_unit("min"@) == Some(60000nat));
        lemma_duration_written(q, "MIN"@, 60000);
    }
    if q * 3600000 <= i64::MAX {
        assert(lower_seq("h"@) =~= "h"@);
        assert(duration_unit("h"@) == Some(3600000nat));
        lemma_duration_written(q, "h"@, 3600000);
    }
    if q * 3600000 <= i64::MAX {
        assert(lower_seq("H"@) =~= "h"@);
        assert(duration_unit("h"@) == Some(3600000nat));
        lemma_duration_written(q, "H"@, 3600000);
    }
    if q * 3600000 <= i64::MAX {
        assert(lower_seq("hr"@) =~= "hr"@);
        assert(duration_unit("hr"@) == Some(3600000nat));
        lemma_duration_written(q, "hr"@, 3600000);
    }
    if q * 3600000 <= i64::MAX {
        assert(lower_seq("HR"@) =~= "hr"@);
        assert(duration_unit("hr"@) == Some(3600000nat));
        lemma_duration_written(q, "HR"@, 3600000);
    }
    if q * 86400000 <= i64::MAX {
        assert(lower_seq("d"@) =~= "d"@);
        assert(duration_unit("d"@) == Some(86400000nat));
        lemma_duration_written(q, "d"@, 86400000);
    }
    if q * 86400000 <= i64::MAX {
        assert(lower_seq("D"@) =~= "d"@);
        assert(duration_unit("d"@) == Some(86400000nat));
        lemma_duration_written(q, "D"@, 86400000);
    }
    if q * 86400000 <= i64::MAX {
        assert(lower_seq("day"@) =~= "day"@);
        assert(duration_unit("day"@) == Some(86400000nat));
        lemma_duration_written(q, "day"@, 86400000);
    }
    if q * 86400000 <= i64::MAX {
        assert(lower_seq("DAY"@) =~= "day"@);
        assert(duration_unit("day"@) == Some(86400000nat));
        lemma_duration_written(q, "DAY"@, 86400000);
    }
    if q * 1000 <= i64::MAX {
        lemma_split_bare(q);
        assert(duration_unit(lower_seq(Seq::<char>::empty())) == Some(1000nat)) by {
            assert(lower_seq(Seq::<char>::empty()) =~= ""@);
        }
    }
}

proof fn lemma_digits_end_all(s: Seq<char>, i: int)
    requires
        0 <= i <= s.len(),
        forall|k: int| i <= k < s.len() ==> is_digit(s[k]),
    ensures
        digits_end(s, i) == s.len(),
    decreases s.len() - i,
{
    if i < s.len() {
        lemma_digits_end_all(s, i + 1);
    }
}

/// A number without a unit splits into that number and an empty unit.
proof fn lemma_split_bare(q: nat)
    requires
        q <= u64::MAX,
    ensures
        split_spec(dec_chars(q)) == Split::Number(q, Seq::<char>::empty()),
{
    lemma_dec_chars(q);
    let d = dec_chars(q);
    assert(is_digit(d[0]));
    assert(is_digit(d.last()));
    lemma_trim_plain(d);
    lemma_digits_end_all(d, 0);
    assert(d.subrange(0, d.len() as int) =~= d);
    assert(d.subrange(d.len() as int, d.len() as int) =~= Seq::<char>::empty());
    assert(trim(Seq::<char>::empty()) =~= Seq::<char>::empty());
}

proof fn reveal_byte_unit_names()
    ensures
        ""@.len() == 0,
        "b"@.len() == 1,
        "b"@[0] == 'b',
        "k"@.len() == 1,
        "k"@[0] == 'k',
        "kb"@.len() == 2,
        "kb"@[0] == 'k',
        "kb"@[1] == 'b',
        "kib"@.len() == 3,
        "kib"@[0] == 'k',
        "kib"@[1] == 'i',
        "kib"@[2] == 'b',
        "m"@.len() == 1,
        "m"@[0] == 'm',
        "mb"@.len() == 2,
        "mb"@[0] == 'm',
        "mb"@[1] == 'b',
        "mib"@.len() == 3,
        "mib"@[0] == 'm',
        "mib"@[1] == 'i',
        "mib"@[2] == 'b',
        "g"@.len() == 1,
        "g"@[0] == 'g',
        "gb"@.len() == 2,
        "gb"@[0] == 'g',
        "gb"@[1] == 'b',
        "gib"@.len() == 3,
        "gib"@[0] == 'g',
        "gib"@[1] == 'i',
        "gib"@[2] == 'b',
        "t"@.len() == 1,
        "t"@[0] == 't',
        "tb"@.len() == 2,
        "tb"@[0] == 't',
        "tb"@[1] == 'b',
        "tib"@.len() == 3,
        "tib"@[0] == 't',
        "tib"@[1] == 'i',
        "tib"@[2] == 'b',
{
    reveal_strlit("");
    reveal_strlit("b");
    reveal_strlit("k");
    reveal_strlit("kb");
    reveal_strlit("kib");
    reveal_strlit("m");
    reveal_strlit("mb");
    reveal_strlit("mib");
    reveal_strlit("g");
    reveal_strlit("gb");
    reveal_strlit("gib");
    reveal_strlit("t");
    reveal_strlit("tb");
    reveal_strlit("tib");
}

/// Size unit `b` (or no unit): bytes, in any case (binary units throughout).
pub proof fn lemma_byte_unit_b(q: nat)
    ensures
        q * 1 <= u64::MAX ==> parse_bytes_spec(dec_chars(q) + "b"@) == BytesOutcome::Value(q * 1),
        q * 1 <= u64::MAX ==> parse_bytes_spec(dec_chars(q) + "B"@) == BytesOutcome::Value(q * 1),
        q <= u64::MAX ==> parse_bytes_spec(dec_chars(q)) == BytesOutcome::Value(q),
{
    reveal_byte_unit_names();
    reveal_strlit("");
    reveal_strlit("B");
    assert("B"@.len() == 1);
    assert("B"@[0] == 'B');
    reveal_strlit("b");
    assert("b"@.len() == 1);
    assert("b"@[0] == 'b');
    if q * 1 <= u64::MAX {
        assert(lower_seq("b"@) =~= "b"@);
        assert(byte_unit("b"@) == Some(1nat));
        lemma_bytes_written(q, "b"@, 1);
    }
    if q * 1 <= u64::MAX {
        assert(lower_seq("B"@) =~= "b"@);
        assert(byte_unit("b"@) == Some(1nat));
        lemma_bytes_written(q, "B"@, 1);
    }
    if q <= u64::MAX {
        lemma_split_bare(q);
        assert(byte_unit(lower_seq(Seq::<char>::empty())) == Some(1nat)) by {
            assert(lower_seq(Seq::<char>::empty()) =~= ""@);
        }
    }
}

/// Size unit `k`, `kb`, `kib`: 1024 bytes, in any case (binary units throughout).
pub proof fn lemma_byte_unit_k(q: nat)
    ensures
        q * 1024 <= u64::MAX ==> parse_bytes_spec(dec_chars(q) + "k"@) == BytesOutcome::Value(q * 1024),
        q * 1024 <= u64::MAX ==> parse_bytes_spec(dec_chars(q) + "K"@) == BytesOutcome::Value(q * 1024),
        q * 1024 <= u64::MAX ==> parse_bytes_spec(dec_chars(q) + "kb"@) == BytesOutcome::Value(q * 1024),
        q * 1024 <= u64::MAX ==> parse_bytes_spec(dec_chars(q) + "KB"@) == BytesOutcome::Value(q * 1024),
        q * 1024 <= u64::MAX ==> parse_bytes_spec(dec_chars(q) + "kib"@) == BytesOutcome::Value(q * 1024),
        q * 1024 <= u64::MAX ==> parse_bytes_spec(dec_chars(q) + "KIB"@) == BytesOutcome::Value(q * 1024),
        q * 1024 <= u64::MAX ==> parse_bytes_spec(dec_chars(q) + "KiB"@) == BytesOutcome::Value(q * 1024),
{
    reveal_byte_unit_names();
    reveal_strlit("");
    reveal_strlit("K");
    assert("K"@.len() == 1);
    assert("K"@[0] == 'K');
    reveal_strlit("KB");
    assert("KB"@.len() == 2);
    assert("KB"@[0] == 'K');
    assert("KB"@[1] == 'B');
    reveal_strlit("KIB");
    assert("KIB"@.len() == 3);
    assert("KIB"@[0] == 'K');
    assert("KIB"@[1] == 'I');
    assert("KIB"@[2] == 'B');
    reveal_strlit("KiB");
    assert("KiB"@.len() == 3);
    assert("KiB"@[0] == 'K');
    assert("KiB"@[1] == 'i');
    assert("KiB"@[2] == 'B');
    reveal_strlit("k");
    assert("k"@.len() == 1);
    assert("k"@[0] == 'k');
    reveal_strlit("kb");
    assert("kb"@.len() == 2);
    assert("kb"@[0] == 'k');
    assert("kb"@[1] == 'b');
    reveal_strlit("kib");
    assert("kib"@.len() == 3);
    assert("kib"@[0] == 'k');
    assert("kib"@[1] == 'i');
    assert("kib"@[2] == 'b');
    if q * 1024 <= u64::MAX {
        assert(lower_seq("k"@) =~= "k"@);
        assert(byte_unit("k"@) == Some(1024nat));
        lemma_bytes_written(q, "k"@, 1024);
    }
    if q * 1024 <= u64::MAX {
        assert(lower_seq("K"@) =~= "k"@);
        assert(byte_unit("k"@) == Some(1024nat));
        lemma_bytes_written(q, "K"@, 1024);
    }
    if q * 1024 <= u64::MAX {
        assert(lower_seq("kb"@) =~= "kb"@);
        assert(byte_unit("kb"@) == Some(1024nat));
        lemma_bytes_written(q, "kb"@, 1024);
    }
    if q * 1024 <= u64::MAX {
        assert(lower_seq("KB"@) =~= "kb"@);
        assert(byte_unit("kb"@) == Some(1024nat));
        lemma_bytes_written(q, "KB"@, 1024);
    }
    if q * 1024 <= u64::MAX {
        assert(lower_seq("kib"@) =~= "kib"@);
        assert(byte_unit("kib"@) == Some(1024nat));
        lemma_bytes_written(q, "kib"@, 1024);
    }
    if q * 1024 <= u64::MAX {
        assert(lower_seq("KIB"@) =~= "kib"@);
        assert(byte_unit("kib"@) == Some(1024nat));
        lemma_bytes_written(q, "KIB"@, 1024);
    }
    if q * 1024 <= u64::MAX {
        assert(lower_seq("KiB"@) =~= "kib"@);
        assert(byte_unit("kib"@) == Some(1024nat));
        lemma_bytes_written(q, "KiB"@, 1024);
    }
}

/// Size unit `m`, `mb`, `mib`: 1024² bytes, in any case (binary units throughout).
pub proof fn lemma_byte_unit_m(q: nat)
    ensures
        q * 1048576 <= u64::MAX ==> parse_bytes_spec(dec_chars(q) + "m"@) == BytesOutcome::Value(q * 1048576),
        q * 1048576 <= u64::MAX ==> parse_bytes_spec(dec_chars(q) + "M"@) == BytesOutcome::Value(q * 1048576),
        q * 1048576 <= u64::MAX ==> parse_bytes_spec(dec_chars(q) + "mb"@) == BytesOutcome::Value(q * 1048576),
        q * 1048576 <= u64::MAX ==> parse_bytes_spec(dec_chars(q) + "MB"@) == BytesOutcome::Value(q * 1048576),
        q * 1048576 <= u64::MAX ==> parse_bytes_spec(dec_chars(q) + "mib"@) == BytesOutcome::Value(q * 1048576),
        q * 1048576 <= u64::MAX ==> parse_bytes_spec(dec_chars(q) + "MIB"@) == BytesOutcome::Value(q * 1048576),
        q * 1048576 <= u64::MAX ==> parse_bytes_spec(dec_chars(q) + "MiB"@) == BytesOutcome::Value(q * 1048576),
{
    reveal_byte_unit_names();
    reveal_strlit("");
    reveal_strlit("M");
    assert("M"@.len() == 1);
    assert("M"@[0] == 'M');
    reveal_strlit("MB");
    assert("MB"@.len() == 2);
    assert("MB"@[0] == 'M');
    assert("MB"@[1] == 'B');
    reveal_strlit("MIB");
    assert("MIB"@.len() == 3);
    assert("MIB"@[0] == 'M');
    assert("MIB"@[1] == 'I');
    assert("MIB"@[2] == 'B');
    reveal_strlit("MiB");
    assert("MiB"@.len() == 3);
    assert("MiB"@[0] == 'M');
    assert("MiB"@[1] == 'i');
    assert("MiB"@[2] == 'B');
    reveal_strlit("m");
    assert("m"@.len() == 1);
    assert("m"@[0] == 'm');
    reveal_strlit("mb");
    assert("mb"@.len() == 2);
    assert("mb"@[0] == 'm');
    assert("mb"@[1] == 'b');
    reveal_strlit("mib");
    assert("mib"@.len() == 3);
    assert("mib"@[0] == 'm');
    assert("mib"@[1] == 'i');
    assert("mib"@[2] == 'b');
    if q * 1048576 <= u64::MAX {
        assert(lower_seq("m"@) =~= "m"@);
        assert(byte_unit("m"@) == Some(1048576nat));
        lemma_bytes_written(q, "m"@, 1048576);
    }
    if q * 1048576 <= u64::MAX {
        assert(lower_seq("M"@) =~= "m"@);
        assert(byte_unit("m"@) == Some(1048576nat));
        lemma_bytes_written(q, "M"@, 1048576);
    }
    if q * 1048576 <= u64::MAX {
        assert(lower_seq("mb"@) =~= "mb"@);
        assert(byte_unit("mb"@) == Some(1048576nat));
        lemma_bytes_written(q, "mb"@, 1048576);
    }
    if q * 1048576 <= u64::MAX {
        assert(lower_seq("MB"@) =~= "mb"@);
        assert(byte_unit("mb"@) == Some(1048576nat));
        lemma_bytes_written(q, "MB"@, 1048576);
    }
    if q * 1048576 <= u64::MAX {
        assert(lower_seq("mib"@) =~= "mib"@);
        assert(byte_unit("mib"@) == Some(1048576nat));
        lemma_bytes_written(q, "mib"@, 1048576);
    }
    if q * 1048576 <= u64::MAX {
        assert(lower_seq("MIB"@) =~= "mib"@);
        assert(byte_unit("mib"@) == Some(1048576nat));
        lemma_bytes_written(q, "MIB"@, 1048576);
    }
    if q * 1048576 <= u64::MAX {
        assert(lower_seq("MiB"@) =~= "mib"@);
        assert(byte_unit("mib"@) == Some(1048576nat));
        lemma_bytes_written(q, "MiB"@, 1048576);
    }
}

/// Size unit `g`, `gb`, `gib`: 1024³ bytes, in any case (binary units throughout).
pub proof fn lemma_byte_unit_g(q: nat)
    ensures
        q * 1073741824 <= u64::MAX ==> parse_bytes_spec(dec_chars(q) + "g"@) == BytesOutcome::Value(q * 1073741824),
        q * 1073741824 <= u64::MAX ==> parse_bytes_spec(dec_chars(q) + "G"@) == BytesOutcome::Value(q * 1073741824),
        q * 1073741824 <= u64::MAX ==> parse_bytes_spec(dec_chars(q) + "gb"@) == BytesOutcome::Value(q * 1073741824),
        q * 1073741824 <= u64::MAX ==> parse_bytes_spec(dec_chars(q) + "GB"@) == BytesOutcome::Value(q * 1073741824),
        q * 1073741824 <= u64::MAX ==> parse_bytes_spec(dec_chars(q) + "gib"@) == BytesOutcome::Value(q * 1073741824),
        q * 1073741824 <= u64::MAX ==> parse_bytes_spec(dec_chars(q) + "GIB"@) == BytesOutcome::Value(q * 1073741824),
        q * 1073741824 <= u64::MAX ==> parse_bytes_spec(dec_chars(q) + "GiB"@) == BytesOutcome::Value(q * 1073741824),
{
    reveal_byte_unit_names();
    reveal_strlit("");
    reveal_strlit("G");
    assert("G"@.len() == 1);
    assert("G"@[0] == 'G');
    reveal_strlit("GB");
    assert("GB"@.len() == 2);
    assert("GB"@[0] == 'G');
    assert("GB"@[1] == 'B');
    reveal_strlit("GIB");
    assert("GIB"@.len() == 3);
    assert("GIB"@[0] == 'G');
    assert("GIB"@[1] == 'I');
    assert("GIB"@[2] == 'B');
    reveal_strlit("GiB");
    assert("GiB"@.len() == 3);
    assert("GiB"@[0] == 'G');
    assert("GiB"@[1] == 'i');
    assert("GiB"@[2] == 'B');
    reveal_strlit("g");
    assert("g"@.len() == 1);
    assert("g"@[0] == 'g');
    reveal_strlit("gb");
    assert("gb"@.len() == 2);
    assert("gb"@[0] == 'g');
    assert("gb"@[1] == 'b');
    reveal_strlit("gib");
    assert("gib"@.len() == 3);
    assert("gib"@[0] == 'g');
    assert("gib"@[1] == 'i');
    assert("gib"@[2] == 'b');
    if q * 1073741824 <= u64::MAX {
        assert(lower_seq("g"@) =~= "g"@);
        assert(byte_unit("g"@) == Some(1073741824nat));
        lemma_bytes_written(q, "g"@, 1073741824);
    }
    if q * 1073741824 <= u64::MAX {
        assert(lower_seq("G"@) =~= "g"@);
        assert(byte_unit("g"@) == Some(1073741824nat));
        lemma_bytes_written(q, "G"@, 1073741824);
    }
    if q * 1073741824 <= u64::MAX {
        assert(lower_seq("gb"@) =~= "gb"@);
        assert(byte_unit("gb"@) == Some(1073741824nat));
        lemma_bytes_written(q, "gb"@, 1073741824);
    }
    if q * 1073741824 <= u64::MAX {
        assert(lower_seq("GB"@) =~= "gb"@);
        assert(byte_unit("gb"@) == Some(1073741824nat));
        lemma_bytes_written(q, "GB"@, 1073741824);
    }
    if q * 1073741824 <= u64::MAX {
        assert(lower_seq("gib"@) =~= "gib"@);
        assert(byte_unit("gib"@) == Some(1073741824nat));
        lemma_bytes_written(q, "gib"@, 1073741824);
    }
    if q * 1073741824 <= u64::MAX {
        assert(lower_seq("GIB"@) =~= "gib"@);
        assert(byte_unit("gib"@) == Some(1073741824nat));
        lemma_bytes_written(q, "GIB"@, 1073741824);
    }
    if q * 1073741824 <= u64::MAX {
        assert(lower_seq("GiB"@) =~= "gib"@);
        assert(byte_unit("gib"@) == Some(1073741824nat));
        lemma_bytes_written(q, "GiB"@, 1073741824);
    }
}

/// Size unit `t`, `tb`, `tib`: 1024⁴ bytes, in any case (binary units throughout).
pub proof fn lemma_byte_unit_t(q: nat)
    ensures
        q * 1099511627776 <= u64::MAX ==> parse_bytes_spec(dec_chars(q) + "t"@) == BytesOutcome::Value(q * 1099511627776),
        q * 1099511627776 <= u64::MAX ==> parse_bytes_spec(dec_chars(q) + "T"@) == BytesOutcome::Value(q * 1099511627776),
        q * 1099511627776 <= u64::MAX ==> parse_bytes_spec(dec_chars(q) + "tb"@) == BytesOutcome::Value(q * 1099511627776),
        q * 1099511627776 <= u64::MAX ==> parse_bytes_spec(dec_chars(q) + "TB"@) == BytesOutcome::Value(q * 1099511627776),
        q * 1099511627776 <= u64::MAX ==> parse_bytes_spec(dec_chars(q) + "tib"@) == BytesOutcome::Value(q * 1099511627776),
        q * 1099511627776 <= u64::MAX ==> parse_bytes_spec(dec_chars(q) + "TIB"@) == BytesOutcome::Value(q * 1099511627776),
        q * 1099511627776 <= u64::MAX ==> parse_bytes_spec(dec_chars(q) + "TiB"@) == BytesOutcome::Value(q * 1099511627776),
{
    reveal_byte_unit_names();
    reveal_strlit("");
    reveal_strlit("T");
    assert("T"@.len() == 1);
    assert("T"@[0] == 'T');
    reveal_strlit("TB");
    assert("TB"@.len() == 2);
    assert("TB"@[0] == 'T');
    assert("TB"@[1] == 'B');
    reveal_strlit("TIB");
    assert("TIB"@.len() == 3);
    assert("TIB"@[0] == 'T');
    assert("TIB"@[1] == 'I');
    assert("TIB"@[2] == 'B');
    reveal_strlit("TiB");
    assert("TiB"@.len() == 3);
    assert("TiB"@[0] == 'T');
    assert("TiB"@[1] == 'i');
    assert("TiB"@[2] == 'B');
    reveal_strlit("t");
    assert("t"@.len() == 1);
    assert("t"@[0] == 't');
    reveal_strlit("tb");
    assert("tb"@.len() == 2);
    assert("tb"@[0] == 't');
    assert("tb"@[1] == 'b');
    reveal_strlit("tib");
    assert("tib"@.len() == 3);
    assert("tib"@[0] == 't');
    assert("tib"@[1] == 'i');
    assert("tib"@[2] == 'b');
    if q * 1099511627776 <= u64::MAX {
        assert(lower_seq("t"@) =~= "t"@);
        assert(byte_unit("t"@) == Some(1099511627776nat));
        lemma_bytes_written(q, "t"@, 1099511627776);
    }
    if q * 1099511627776 <= u64::MAX {
        assert(lower_seq("T"@) =~= "t"@);
        assert(byte_unit("t"@) == Some(1099511627776nat));
        lemma_bytes_written(q, "T"@, 1099511627776);
    }
    if q * 1099511627776 <= u64::MAX {
        assert(lower_seq("tb"@) =~= "tb"@);
        assert(byte_unit("tb"@) == Some(1099511627776nat));
        lemma_bytes_written(q, "tb"@, 1099511627776);
    }
    if q * 1099511627776 <= u64::MAX {
        assert(lower_seq("TB"@) =~= "tb"@);
        assert(byte_unit("tb"@) == Some(1099511627776nat));
        lemma_bytes_written(q, "TB"@, 1099511627776);
    }
    if q * 1099511627776 <= u64::MAX {
        assert(lower_seq("tib"@) =~= "tib"@);
        assert(byte_unit("tib"@) == Some(1099511627776nat));
        lemma_bytes_written(q, "tib"@, 1099511627776);
    }
    if q * 1099511627776 <= u64::MAX {
        assert(lower_seq("TIB"@) =~= "tib"@);
        assert(byte_unit("tib"@) == Some(1099511627776nat));
        lemma_bytes_written(q, "TIB"@, 1099511627776);
    }
    if q * 1099511627776 <= u64::MAX {
        assert(lower_seq("TiB"@) =~= "tib"@);
        assert(byte_unit("tib"@) == Some(1099511627776nat));
        lemma_bytes_written(q, "TiB"@, 1099511627776);
    }
}

} // verus!
