//! The load-generator output listener and its report parser.
//!
//! The load generator prints a fixed-shape textual report. The parser scans
//! it line by line for the known patterns — thread counts, the latency and
//! request-rate blocks, totals, socket errors, percentiles and the aggregate
//! rates — keeping unit-suffixed figures as the text they were printed as.
//! When a pattern occurs more than once, the last occurrence wins. Missing
//! blocks leave the documented defaults (zero, or the empty string) rather
//! than failing.

use vstd::prelude::*;

use crate::error::{ToolsetError, ToolsetResult};
use crate::text::{
    all_digits, complete_lines, dec_digits, dec_val, is_digit_char, is_space_char,
    lemma_pieces_acc_len, parse_u32_digits, parse_u64_digits, pieces_acc, raw_pieces,
    spec_lines, spec_tokens, str_eq, strip_cr, tail_piece, tok_u32, tok_u64, tokens_acc,
    tokens_of, u64_to_dec,
};

verus! {

/// A figure as the load generator printed it: digits first, then the unit it
/// chose (`1.23ms`, `42.5k`, `99%`), with nothing that could split a token.
pub open spec fn is_measure(t: Seq<char>) -> bool {
    &&& t.len() > 0
    &&& is_digit_char(t[0])
    &&& forall|i: int|
        0 <= i < t.len() ==> !is_space_char(#[trigger] t[i]) && t[i] != '\n' && t[i] != '\r'
}

pub fn check_measure(t: &str) -> (r: bool)
    ensures
        r == is_measure(t@),
{
    let len = t.unicode_len();
    if len == 0 {
        return false;
    }
    let c0 = t.get_char(0) as u32;
    if c0 < 48 || c0 > 57 {
        assert(!is_digit_char(t@[0]));
        return false;
    }
    let mut i: usize = 0;
    while i < len
        invariant
            len == t@.len(),
            0 <= i <= len,
            is_digit_char(t@[0]),
            forall|j: int|
                0 <= j < i ==> !is_space_char(#[trigger] t@[j]) && t@[j] != '\n' && t@[j]
                    != '\r',
        decreases len - i,
    {
        let c = t.get_char(i);
        if c == ' ' || c == '\t' || c == '\n' || c == '\r' {
            return false;
        }
        i = i + 1;
    }
    true
}

/// `N threads and N connections`
pub open spec fn threads_line(toks: Seq<Seq<char>>) -> Option<(u32, u32)> {
    if toks.len() == 5 && toks[1] == "threads"@ && toks[2] == "and"@ && toks[4]
        == "connections"@ {
        match (tok_u32(toks[0]), tok_u32(toks[3])) {
            (Some(t), Some(c)) => Some((t, c)),
            _ => None,
        }
    } else {
        None
    }
}

/// A header followed by four unit-suffixed figures: avg, stdev, max, ±stdev.
pub open spec fn four_measure_line(toks: Seq<Seq<char>>, head: Seq<char>) -> Option<
    (Seq<char>, Seq<char>, Seq<char>, Seq<char>),
> {
    if toks.len() == 5 && toks[0] == head && is_measure(toks[1]) && is_measure(toks[2])
        && is_measure(toks[3]) && is_measure(toks[4]) {
        Some((toks[1], toks[2], toks[3], toks[4]))
    } else {
        None
    }
}

/// A header followed by one unit-suffixed figure (`Requests/sec:`,
/// `Transfer/sec:`, and the percentile rows).
pub open spec fn one_measure_line(toks: Seq<Seq<char>>, head: Seq<char>) -> Option<Seq<char>> {
    if toks.len() == 2 && toks[0] == head && is_measure(toks[1]) {
        Some(toks[1])
    } else {
        None
    }
}

/// Index of the first `'.'`, or the length if there is none.
pub open spec fn until_dot(p: Seq<char>) -> nat
    decreases p.len(),
{
    if p.len() == 0 || p[0] == '.' {
        0
    } else {
        1 + until_dot(p.drop_first())
    }
}

/// The fractional digits scaled to thousandths: the first three fractional
/// digits, padded with zeros.
pub open spec fn frac_ms(f: Seq<char>) -> nat {
    if f.len() == 0 {
        0
    } else if f.len() == 1 {
        digit_seq_val(f) * 100
    } else if f.len() == 2 {
        digit_seq_val(f) * 10
    } else {
        digit_seq_val(f.take(3))
    }
}

pub open spec fn digit_seq_val(f: Seq<char>) -> nat {
    dec_val(f)
}

/// The value in milliseconds of a decimal seconds figure `I` or `I.F`, with
/// at most nine integer digits.
pub open spec fn decimal_ms(p: Seq<char>) -> Option<u64> {
    let k = until_dot(p) as int;
    if k == p.len() {
        if all_digits(p) && p.len() <= 9 {
            Some((dec_val(p) * 1000) as u64)
        } else {
            None
        }
    } else {
        let int_part = p.take(k);
        let frac = p.skip(k + 1);
        if all_digits(int_part) && int_part.len() <= 9 && (forall|i: int|
            0 <= i < frac.len() ==> is_digit_char(#[trigger] frac[i])) {
            Some((dec_val(int_part) * 1000 + frac_ms(frac)) as u64)
        } else {
            None
        }
    }
}

/// The duration token of the totals row, e.g. `15.02s,` — a decimal seconds
/// figure followed by `s,` — as milliseconds.
pub open spec fn duration_ms_tok(t: Seq<char>) -> Option<u64> {
    if t.len() >= 2 && t[t.len() - 2] == 's' && t.last() == ',' {
        decimal_ms(t.take(t.len() - 2))
    } else {
        None
    }
}

/// `N requests in D s, X read`
pub open spec fn totals_line(toks: Seq<Seq<char>>) -> Option<(u32, u64, Seq<char>)> {
    if toks.len() == 6 && toks[1] == "requests"@ && toks[2] == "in"@ && toks[5] == "read"@
        && is_measure(toks[4]) {
        match (tok_u32(toks[0]), duration_ms_tok(toks[3])) {
            (Some(r), Some(d)) => Some((r, d, toks[4])),
            _ => None,
        }
    } else {
        None
    }
}

/// A count followed by a comma, as in `connect 1,`.
pub open spec fn u32_comma_tok(t: Seq<char>) -> Option<u32> {
    if t.len() >= 1 && t.last() == ',' {
        tok_u32(t.drop_last())
    } else {
        None
    }
}

/// `Socket errors: connect N, read N, write N, timeout N`
pub open spec fn socket_errors_line(toks: Seq<Seq<char>>) -> Option<(u32, u32, u32, u32)> {
    if toks.len() == 10 && toks[0] == "Socket"@ && toks[1] == "errors:"@ && toks[2]
        == "connect"@ && toks[4] == "read"@ && toks[6] == "write"@ && toks[8] == "timeout"@ {
        match (u32_comma_tok(toks[3]), u32_comma_tok(toks[5]), u32_comma_tok(toks[7]), tok_u32(
            toks[9],
        )) {
            (Some(c), Some(r), Some(w), Some(t)) => Some((c, r, w, t)),
            _ => None,
        }
    } else {
        None
    }
}

/// `Non-2xx or 3xx responses: N`
pub open spec fn non_2xx_line(toks: Seq<Seq<char>>) -> Option<u32> {
    if toks.len() == 5 && toks[0] == "Non-2xx"@ && toks[1] == "or"@ && toks[2] == "3xx"@
        && toks[3] == "responses:"@ {
        tok_u32(toks[4])
    } else {
        None
    }
}

pub fn try_threads(toks: &Vec<String>) -> (r: Option<(u32, u32)>)
    ensures
        r == threads_line(toks.deep_view()),
{
    let ghost tv = toks.deep_view();
    if toks.len() != 5 {
        return None;
    }
    proof {
        assert(tv[0] == toks@[0]@);
        assert(tv[1] == toks@[1]@);
        assert(tv[2] == toks@[2]@);
        assert(tv[3] == toks@[3]@);
        assert(tv[4] == toks@[4]@);
    }
    if !str_eq(toks[1].as_str(), "threads") || !str_eq(toks[2].as_str(), "and") || !str_eq(
        toks[4].as_str(),
        "connections",
    ) {
        return None;
    }
    let t = parse_u32_digits(toks[0].as_str());
    let c = parse_u32_digits(toks[3].as_str());
    match (t, c) {
        (Some(t), Some(c)) => Some((t, c)),
        _ => None,
    }
}

pub fn try_four_measure(toks: &Vec<String>, head: &str) -> (r: Option<
    (String, String, String, String),
>)
    ensures
        match r {
            Some(v) => four_measure_line(toks.deep_view(), head@) == Some(
                (v.0@, v.1@, v.2@, v.3@),
            ),
            None => four_measure_line(toks.deep_view(), head@) is None,
        },
{
    let ghost tv = toks.deep_view();
    if toks.len() != 5 {
        return None;
    }
    proof {
        assert(tv[0] == toks@[0]@);
        assert(tv[1] == toks@[1]@);
        assert(tv[2] == toks@[2]@);
        assert(tv[3] == toks@[3]@);
        assert(tv[4] == toks@[4]@);
    }
    if !str_eq(toks[0].as_str(), head) {
        return None;
    }
    if check_measure(toks[1].as_str()) && check_measure(toks[2].as_str()) && check_measure(
        toks[3].as_str(),
    ) && check_measure(toks[4].as_str()) {
        Some((toks[1].clone(), toks[2].clone(), toks[3].clone(), toks[4].clone()))
    } else {
        None
    }
}

pub fn try_one_measure(toks: &Vec<String>, head: &str) -> (r: Option<String>)
    ensures
        match r {
            Some(v) => one_measure_line(toks.deep_view(), head@) == Some(v@),
            None => one_measure_line(toks.deep_view(), head@) is None,
        },
{
    let ghost tv = toks.deep_view();
    if toks.len() != 2 {
        return None;
    }
    proof {
        assert(tv[0] == toks@[0]@);
        assert(tv[1] == toks@[1]@);
    }
    if !str_eq(toks[0].as_str(), head) {
        return None;
    }
    if check_measure(toks[1].as_str()) {
        Some(toks[1].clone())
    } else {
        None
    }
}

/// Milliseconds of a decimal seconds figure, e.g. `15.02` -> `15020`.
pub fn parse_decimal_ms(p: &str) -> (r: Option<u64>)
    ensures
        r == decimal_ms(p@),
        r matches Some(v) ==> v < 1_000_000_000_000u64,
{
    let len = p.unicode_len();
    let mut k: usize = 0;
    let mut found = false;
    while !found && k < len
        invariant
            len == p@.len(),
            0 <= k <= len,
            forall|j: int| 0 <= j < k ==> p@[j] != '.',
            found ==> k < len && p@[k as int] == '.',
        decreases len - k - if found {
            1int
        } else {
            0int
        },
    {
        if p.get_char(k) == '.' {
            found = true;
        } else {
            k = k + 1;
        }
    }
    proof {
        lemma_until_dot_exact(p@, k as int);
    }
    if k == len {
        let iv = parse_u64_digits(p);
        let long = p.unicode_len() > 9;
        proof {
            assert(p@.take(len as int) =~= p@);
            if tok_u64(p@) is Some && !long {
                crate::text::lemma_dec_val_bound(p@);
                crate::text::lemma_pow10_19();
                crate::text::lemma_pow10_mono(p@.len() as nat, 9);
            }
        }
        match iv {
            Some(v) => if !long {
                Some(v * 1000)
            } else {
                None
            },
            None => None,
        }
    } else {
        let int_part = p.substring_char(0, k);
        let frac = p.substring_char(k + 1, len);
        proof {
            assert(int_part@ =~= p@.take(k as int));
            assert(frac@ =~= p@.skip(k as int + 1));
        }
        let iv = parse_u64_digits(int_part);
        let long = int_part.unicode_len() > 9;
        let fv = parse_frac_ms(frac);
        proof {
            if tok_u64(int_part@) is Some && !long {
                crate::text::lemma_dec_val_bound(int_part@);
                crate::text::lemma_pow10_19();
                crate::text::lemma_pow10_mono(int_part@.len() as nat, 9);
            }
        }
        match (iv, fv) {
            (Some(v), Some(f)) => if !long {
                Some(v * 1000 + f)
            } else {
                None
            },
            _ => None,
        }
    }
}

proof fn lemma_until_dot_exact(p: Seq<char>, k: int)
    requires
        0 <= k <= p.len(),
        forall|j: int| 0 <= j < k ==> p[j] != '.',
        k < p.len() ==> p[k] == '.',
    ensures
        until_dot(p) == k,
    decreases k,
{
    if k > 0 {
        assert(forall|j: int| 0 <= j < k - 1 ==> p.drop_first()[j] == p[j + 1]);
        if k < p.len() {
            assert(p.drop_first()[k - 1] == p[k]);
        }
        lemma_until_dot_exact(p.drop_first(), k - 1);
    }
}

/// The fractional digits scaled to thousandths.
fn parse_frac_ms(f: &str) -> (r: Option<u64>)
    ensures
        match r {
            Some(v) => (forall|i: int| 0 <= i < f@.len() ==> is_digit_char(#[trigger] f@[i]))
                && v == frac_ms(f@) && v <= 999,
            None => !(forall|i: int| 0 <= i < f@.len() ==> is_digit_char(#[trigger] f@[i])),
        },
{
    proof {
        assert(crate::text::pow10(0) == 1);
        assert(crate::text::pow10(1) == 10);
        assert(crate::text::pow10(2) == 100);
        assert(crate::text::pow10(3) == 1000);
    }
    let len = f.unicode_len();
    if len == 0 {
        return Some(0);
    }
    if len <= 2 {
        match parse_u64_digits(f) {
            Some(v) => {
                proof {
                    crate::text::lemma_dec_val_bound(f@);
                }
                if len == 1 {
                    Some(v * 100)
                } else {
                    Some(v * 10)
                }
            },
            None => None,
        }
    } else {
        let head = f.substring_char(0, 3);
        proof {
            assert(head@ =~= f@.take(3));
        }
        let rest_ok = check_all_digits(f);
        if !rest_ok {
            return None;
        }
        proof {
            assert(is_digit_char(f@.take(3)[0]));
            assert(all_digits(f@.take(3)));
        }
        match parse_u64_digits(head) {
            Some(v) => {
                proof {
                    crate::text::lemma_dec_val_bound(head@);
                }
                Some(v)
            },
            None => None,
        }
    }
}

/// Every character a digit (an empty string passes).
pub fn check_all_digits(t: &str) -> (r: bool)
    ensures
        r == (forall|i: int| 0 <= i < t@.len() ==> is_digit_char(#[trigger] t@[i])),
{
    let len = t.unicode_len();
    let mut i: usize = 0;
    while i < len
        invariant
            len == t@.len(),
            0 <= i <= len,
            forall|j: int| 0 <= j < i ==> is_digit_char(#[trigger] t@[j]),
        decreases len - i,
    {
        let c = t.get_char(i) as u32;
        if c < 48 || c > 57 {
            assert(!is_digit_char(t@[i as int]));
            return false;
        }
        i = i + 1;
    }
    true
}

pub fn try_duration_ms(t: &str) -> (r: Option<u64>)
    ensures
        r == duration_ms_tok(t@),
        r matches Some(v) ==> v < 1_000_000_000_000u64,
{
    let len = t.unicode_len();
    if len < 2 {
        return None;
    }
    if t.get_char(len - 2) != 's' || t.get_char(len - 1) != ',' {
        return None;
    }
    let p = t.substring_char(0, len - 2);
    proof {
        assert(p@ =~= t@.take(t@.len() - 2));
    }
    parse_decimal_ms(p)
}

pub fn try_totals(toks: &Vec<String>) -> (r: Option<(u32, u64, String)>)
    ensures
        match r {
            Some(v) => totals_line(toks.deep_view()) == Some((v.0, v.1, v.2@)) && v.1
                < 1_000_000_000_000u64,
            None => totals_line(toks.deep_view()) is None,
        },
{
    let ghost tv = toks.deep_view();
    if toks.len() != 6 {
        return None;
    }
    proof {
        assert(tv[0] == toks@[0]@);
        assert(tv[1] == toks@[1]@);
        assert(tv[2] == toks@[2]@);
        assert(tv[3] == toks@[3]@);
        assert(tv[4] == toks@[4]@);
        assert(tv[5] == toks@[5]@);
    }
    if !str_eq(toks[1].as_str(), "requests") || !str_eq(toks[2].as_str(), "in") || !str_eq(
        toks[5].as_str(),
        "read",
    ) {
        return None;
    }
    if !check_measure(toks[4].as_str()) {
        return None;
    }
    let n = parse_u32_digits(toks[0].as_str());
    let d = try_duration_ms(toks[3].as_str());
    match (n, d) {
        (Some(n), Some(d)) => Some((n, d, toks[4].clone())),
        _ => None,
    }
}

pub fn try_u32_comma(t: &str) -> (r: Option<u32>)
    ensures
        r == u32_comma_tok(t@),
{
    let len = t.unicode_len();
    if len < 1 || t.get_char(len - 1) != ',' {
        return None;
    }
    let p = t.substring_char(0, len - 1);
    proof {
        assert(p@ =~= t@.drop_last());
    }
    parse_u32_digits(p)
}

pub fn try_socket_errors(toks: &Vec<String>) -> (r: Option<(u32, u32, u32, u32)>)
    ensures
        r == socket_errors_line(toks.deep_view()),
{
    let ghost tv = toks.deep_view();
    if toks.len() != 10 {
        return None;
    }
    proof {
        assert forall|i: int| 0 <= i < 10 implies tv[i] == toks@[i]@ by {
        }
    }
    if !str_eq(toks[0].as_str(), "Socket") || !str_eq(toks[1].as_str(), "errors:") || !str_eq(
        toks[2].as_str(),
        "connect",
    ) || !str_eq(toks[4].as_str(), "read") || !str_eq(toks[6].as_str(), "write") || !str_eq(
        toks[8].as_str(),
        "timeout",
    ) {
        return None;
    }
    let c = try_u32_comma(toks[3].as_str());
    let rd = try_u32_comma(toks[5].as_str());
    let w = try_u32_comma(toks[7].as_str());
    let t = parse_u32_digits(toks[9].as_str());
    match (c, rd, w, t) {
        (Some(c), Some(rd), Some(w), Some(t)) => Some((c, rd, w, t)),
        _ => None,
    }
}

pub fn try_non_2xx(toks: &Vec<String>) -> (r: Option<u32>)
    ensures
        r == non_2xx_line(toks.deep_view()),
{
    let ghost tv = toks.deep_view();
    if toks.len() != 5 {
        return None;
    }
    proof {
        assert(tv[0] == toks@[0]@);
        assert(tv[1] == toks@[1]@);
        assert(tv[2] == toks@[2]@);
        assert(tv[3] == toks@[3]@);
        assert(tv[4] == toks@[4]@);
    }
    if !str_eq(toks[0].as_str(), "Non-2xx") || !str_eq(toks[1].as_str(), "or") || !str_eq(
        toks[2].as_str(),
        "3xx",
    ) || !str_eq(toks[3].as_str(), "responses:") {
        return None;
    }
    parse_u32_digits(toks[4].as_str())
}

/// Mathematical image of a parsed report: every field the scanner can fill,
/// with its documented default.
pub struct ReportSpec {
    pub threads: u32,
    pub connections: u32,
    pub latency: (Seq<char>, Seq<char>, Seq<char>, Seq<char>),
    pub req_sec: (Seq<char>, Seq<char>, Seq<char>, Seq<char>),
    pub total_requests: u32,
    pub duration_ms: u64,
    pub data_read: Seq<char>,
    pub socket_errors: Option<(u32, u32, u32, u32)>,
    pub non_2xx_3xx: Option<u32>,
    pub rps: Seq<char>,
    pub tps: Seq<char>,
    pub p50: Seq<char>,
    pub p75: Seq<char>,
    pub p90: Seq<char>,
    pub p99: Seq<char>,
}

pub open spec fn empty_report() -> ReportSpec {
    ReportSpec {
        threads: 0,
        connections: 0,
        latency: (Seq::empty(), Seq::empty(), Seq::empty(), Seq::empty()),
        req_sec: (Seq::empty(), Seq::empty(), Seq::empty(), Seq::empty()),
        total_requests: 0,
        duration_ms: 0,
        data_read: Seq::empty(),
        socket_errors: None,
        non_2xx_3xx: None,
        rps: Seq::empty(),
        tps: Seq::empty(),
        p50: Seq::empty(),
        p75: Seq::empty(),
        p90: Seq::empty(),
        p99: Seq::empty(),
    }
}

/// One line of the report applied to the running state: every pattern that
/// matches overwrites its fields.
pub open spec fn apply_line(r: ReportSpec, toks: Seq<Seq<char>>) -> ReportSpec {
    let r = match threads_line(toks) {
        Some(v) => ReportSpec { threads: v.0, connections: v.1, ..r },
        None => r,
    };
    let r = match four_measure_line(toks, "Latency"@) {
        Some(v) => ReportSpec { latency: v, ..r },
        None => r,
    };
    let r = match four_measure_line(toks, "Req/Sec"@) {
        Some(v) => ReportSpec { req_sec: v, ..r },
        None => r,
    };
    let r = match totals_line(toks) {
        Some(v) => ReportSpec { total_requests: v.0, duration_ms: v.1, data_read: v.2, ..r },
        None => r,
    };
    let r = match socket_errors_line(toks) {
        Some(v) => ReportSpec { socket_errors: Some(v), ..r },
        None => r,
    };
    let r = match non_2xx_line(toks) {
        Some(v) => ReportSpec { non_2xx_3xx: Some(v), ..r },
        None => r,
    };
    let r = match one_measure_line(toks, "Requests/sec:"@) {
        Some(v) => ReportSpec { rps: v, ..r },
        None => r,
    };
    let r = match one_measure_line(toks, "Transfer/sec:"@) {
        Some(v) => ReportSpec { tps: v, ..r },
        None => r,
    };
    let r = match one_measure_line(toks, "50%"@) {
        Some(v) => ReportSpec { p50: v, ..r },
        None => r,
    };
    let r = match one_measure_line(toks, "75%"@) {
        Some(v) => ReportSpec { p75: v, ..r },
        None => r,
    };
    let r = match one_measure_line(toks, "90%"@) {
        Some(v) => ReportSpec { p90: v, ..r },
        None => r,
    };
    let r = match one_measure_line(toks, "99%"@) {
        Some(v) => ReportSpec { p99: v, ..r },
        None => r,
    };
    r
}

/// The state after scanning every line in order.
pub open spec fn fold_report(lines: Seq<Seq<char>>) -> ReportSpec
    decreases lines.len(),
{
    if lines.len() == 0 {
        empty_report()
    } else {
        apply_line(fold_report(lines.drop_last()), spec_tokens(lines.last()))
    }
}

#[derive(Clone, Debug)]
pub struct Latency {
    pub average: String,
    pub standard_deviation: String,
    pub max: String,
    pub plus_minus_std_dev: String,
}

#[derive(Clone, Debug)]
pub struct RequestsPerSecond {
    pub average: String,
    pub standard_deviation: String,
    pub max: String,
    pub plus_minus_std_dev: String,
}

#[derive(Clone, Debug)]
pub struct ThreadStats {
    pub latency: Latency,
    pub requests_per_second: RequestsPerSecond,
}

#[derive(Clone, Debug)]
pub struct LatencyDistribution {
    pub percentile_50: String,
    pub percentile_75: String,
    pub percentile_90: String,
    pub percentile_99: String,
}

#[derive(Clone, Copy, Debug, PartialEq, Eq, Structural)]
pub struct SocketErrors {
    pub connect: u32,
    pub read: u32,
    pub write: u32,
    pub timeout: u32,
}

/// One benchmark run, parsed. Unit-suffixed figures stay as the text the
/// load generator printed; the duration is held exactly, in milliseconds;
/// the end time is the start time plus the duration.
#[derive(Clone, Debug)]
pub struct BenchmarkResults {
    pub start_time: u64,
    pub end_time: u64,
    pub threads: u32,
    pub connections: u32,
    pub thread_stats: ThreadStats,
    pub latency_distribution: LatencyDistribution,
    pub total_requests: u32,
    pub duration_ms: u64,
    pub data_read: String,
    pub socket_errors: Option<SocketErrors>,
    pub requests_per_second: String,
    pub transfer_per_second: String,
    pub non_2xx_3xx: Option<u32>,
}

impl BenchmarkResults {
    /// The parsed record matches the mathematical report `rep` started at
    /// `start` milliseconds.
    pub open spec fn matches_report(self, rep: ReportSpec, start: u64) -> bool {
        &&& self.start_time == start
        &&& self.end_time == start + rep.duration_ms
        &&& self.threads == rep.threads
        &&& self.connections == rep.connections
        &&& self.thread_stats.latency.average@ == rep.latency.0
        &&& self.thread_stats.latency.standard_deviation@ == rep.latency.1
        &&& self.thread_stats.latency.max@ == rep.latency.2
        &&& self.thread_stats.latency.plus_minus_std_dev@ == rep.latency.3
        &&& self.thread_stats.requests_per_second.average@ == rep.req_sec.0
        &&& self.thread_stats.requests_per_second.standard_deviation@ == rep.req_sec.1
        &&& self.thread_stats.requests_per_second.max@ == rep.req_sec.2
        &&& self.thread_stats.requests_per_second.plus_minus_std_dev@ == rep.req_sec.3
        &&& self.total_requests == rep.total_requests
        &&& self.duration_ms == rep.duration_ms
        &&& self.data_read@ == rep.data_read
        &&& match (self.socket_errors, rep.socket_errors) {
            (Some(s), Some(t)) => s.connect == t.0 && s.read == t.1 && s.write == t.2
                && s.timeout == t.3,
            (None, None) => true,
            _ => false,
        }
        &&& self.non_2xx_3xx == rep.non_2xx_3xx
        &&& self.requests_per_second@ == rep.rps
        &&& self.transfer_per_second@ == rep.tps
        &&& self.latency_distribution.percentile_50@ == rep.p50
        &&& self.latency_distribution.percentile_75@ == rep.p75
        &&& self.latency_distribution.percentile_90@ == rep.p90
        &&& self.latency_distribution.percentile_99@ == rep.p99
    }
}

/// Parses a complete load-generator transcript. Scans line by line; the last
/// occurrence of a pattern wins; missing patterns keep their defaults.
pub fn parse_wrk_text(data: &str, start_time: u64) -> (r: BenchmarkResults)
    requires
        start_time < 0x1000_0000_0000_0000u64,
    ensures
        r.matches_report(fold_report(spec_lines(data@)), start_time),
{
    let lines = crate::text::split_lines(data);
    let ghost lv = lines.deep_view();
    let mut threads: u32 = 0;
    let mut connections: u32 = 0;
    let mut latency_average = String::new();
    let mut latency_stddev = String::new();
    let mut latency_max = String::new();
    let mut latency_plus_minus = String::new();
    let mut req_sec_average = String::new();
    let mut req_sec_stddev = String::new();
    let mut req_sec_max = String::new();
    let mut req_sec_plus_minus = String::new();
    let mut total_requests: u32 = 0;
    let mut duration_ms: u64 = 0;
    let mut data_read = String::new();
    let mut socket_errors: Option<SocketErrors> = None;
    let mut non_2xx_3xx: Option<u32> = None;
    let mut requests_per_second = String::new();
    let mut transfer_per_second = String::new();
    let mut percentile_50 = String::new();
    let mut percentile_75 = String::new();
    let mut percentile_90 = String::new();
    let mut percentile_99 = String::new();
    let mut i: usize = 0;
    proof {
        assert(lv.take(0) =~= Seq::<Seq<char>>::empty());
    }
    while i < lines.len()
        invariant
            lv == lines.deep_view(),
            0 <= i <= lines.len(),
            lines@.len() == lv.len(),
            duration_ms < 1_000_000_000_000u64,
            ({
                let rep = fold_report(lv.take(i as int));
                &&& threads == rep.threads
                &&& connections == rep.connections
                &&& latency_average@ == rep.latency.0
                &&& latency_stddev@ == rep.latency.1
                &&& latency_max@ == rep.latency.2
                &&& latency_plus_minus@ == rep.latency.3
                &&& req_sec_average@ == rep.req_sec.0
                &&& req_sec_stddev@ == rep.req_sec.1
                &&& req_sec_max@ == rep.req_sec.2
                &&& req_sec_plus_minus@ == rep.req_sec.3
                &&& total_requests == rep.total_requests
                &&& duration_ms == rep.duration_ms
                &&& data_read@ == rep.data_read
                &&& match (socket_errors, rep.socket_errors) {
                    (Some(s), Some(t)) => s.connect == t.0 && s.read == t.1 && s.write == t.2
                        && s.timeout == t.3,
                    (None, None) => true,
                    _ => false,
                }
                &&& non_2xx_3xx == rep.non_2xx_3xx
                &&& requests_per_second@ == rep.rps
                &&& transfer_per_second@ == rep.tps
                &&& percentile_50@ == rep.p50
                &&& percentile_75@ == rep.p75
                &&& percentile_90@ == rep.p90
                &&& percentile_99@ == rep.p99
            }),
        decreases lines.len() - i,
    {
        let toks = tokens_of(lines[i].as_str());
        proof {
            assert(lv[i as int] == lines@[i as int]@);
            assert(lv.take(i as int + 1).drop_last() =~= lv.take(i as int));
            assert(lv.take(i as int + 1).last() == lv[i as int]);
        }
        if let Some(v) = try_threads(&toks) {
            threads = v.0;
            connections = v.1;
        }
        if let Some(v) = try_four_measure(&toks, "Latency") {
            latency_average = v.0;
            latency_stddev = v.1;
            latency_max = v.2;
            latency_plus_minus = v.3;
        }
        if let Some(v) = try_four_measure(&toks, "Req/Sec") {
            req_sec_average = v.0;
            req_sec_stddev = v.1;
            req_sec_max = v.2;
            req_sec_plus_minus = v.3;
        }
        if let Some(v) = try_totals(&toks) {
            total_requests = v.0;
            duration_ms = v.1;
            data_read = v.2;
        }
        if let Some(v) = try_socket_errors(&toks) {
            socket_errors = Some(
                SocketErrors { connect: v.0, read: v.1, write: v.2, timeout: v.3 },
            );
        }
        if let Some(v) = try_non_2xx(&toks) {
            non_2xx_3xx = Some(v);
        }
        if let Some(v) = try_one_measure(&toks, "Requests/sec:") {
            requests_per_second = v;
        }
        if let Some(v) = try_one_measure(&toks, "Transfer/sec:") {
            transfer_per_second = v;
        }
        if let Some(v) = try_one_measure(&toks, "50%") {
            percentile_50 = v;
        }
        if let Some(v) = try_one_measure(&toks, "75%") {
            percentile_75 = v;
        }
        if let Some(v) = try_one_measure(&toks, "90%") {
            percentile_90 = v;
        }
        if let Some(v) = try_one_measure(&toks, "99%") {
            percentile_99 = v;
        }
        i = i + 1;
    }
    proof {
        assert(lv.take(lv.len() as int) =~= lv);
    }
    let end_time = start_time + duration_ms;
    BenchmarkResults {
        start_time,
        end_time,
        threads,
        connections,
        thread_stats: ThreadStats {
            latency: Latency {
                average: latency_average,
                standard_deviation: latency_stddev,
                max: latency_max,
                plus_minus_std_dev: latency_plus_minus,
            },
            requests_per_second: RequestsPerSecond {
                average: req_sec_average,
                standard_deviation: req_sec_stddev,
                max: req_sec_max,
                plus_minus_std_dev: req_sec_plus_minus,
            },
        },
        latency_distribution: LatencyDistribution {
            percentile_50,
            percentile_75,
            percentile_90,
            percentile_99,
        },
        total_requests,
        duration_ms,
        data_read,
        socket_errors,
        requests_per_second,
        transfer_per_second,
        non_2xx_3xx,
    }
}

/// Captures the load generator's whole output as it streams in, handing
/// printable lines back for the log; the report is parsed once the stream
/// has closed.
#[derive(Clone, Debug)]
pub struct Benchmarker {
    pub data: Vec<u8>,
    pub start_time: u64,
    pub error_message: Option<String>,
}

impl Benchmarker {
    /// `start_time` is the wall clock in milliseconds at attachment; the
    /// parsed record's end time is measured from it.
    pub fn new(start_time: u64) -> (r: Self)
        ensures
            r.data@.len() == 0,
            r.start_time == start_time,
            r.error_message is None,
    {
        Benchmarker { data: Vec::new(), start_time, error_message: None }
    }

    /// One chunk of the stream: kept in full, with its loggable lines
    /// returned. Chunks may cross line boundaries arbitrarily.
    pub fn write(&mut self, data: &[u8]) -> (r: Vec<String>)
        ensures
            final(self).data@ == old(self).data@ + data@,
            final(self).start_time == old(self).start_time,
            final(self).error_message == old(self).error_message,
            r.deep_view() == crate::docker::listener::chunk_log_lines(data@),
    {
        crate::docker::listener::extend_bytes(&mut self.data, data);
        crate::docker::listener::chunk_log_of(data)
    }

    /// Parses the accumulated output; output that is not UTF-8 text is a
    /// parse failure.
    pub fn parse_wrk_output(&self) -> (r: ToolsetResult<BenchmarkResults>)
        requires
            self.start_time < 0x1000_0000_0000_0000u64,
        ensures
            match r {
                Ok(res) => vstd::utf8::valid_utf8(self.data@) && res.matches_report(
                    fold_report(spec_lines(vstd::utf8::decode_utf8(self.data@))),
                    self.start_time,
                ),
                Err(e) => !vstd::utf8::valid_utf8(self.data@) && (e
                    matches ToolsetError::BenchmarkDataParseError),
            },
    {
        match crate::text::utf8_str(self.data.as_slice()) {
            Some(s) => {
                proof {
                    vstd::utf8::encode_utf8_decode_utf8(s@);
                }
                Ok(parse_wrk_text(s, self.start_time))
            },
            None => Err(ToolsetError::BenchmarkDataParseError),
        }
    }
}

//
// Rendering a parsed report back into the canonical textual shape, and the
// proof that parsing what was rendered yields the same field values.
//

/// A token the renderer may emit: non-empty, with nothing that could split
/// or break a line.
pub open spec fn clean_tok(t: Seq<char>) -> bool {
    &&& t.len() > 0
    &&& forall|i: int|
        0 <= i < t.len() ==> !is_space_char(#[trigger] t[i]) && t[i] != '\n' && t[i] != '\r'
}

/// Tokens joined by single blanks.
pub open spec fn join_toks(toks: Seq<Seq<char>>) -> Seq<char>
    decreases toks.len(),
{
    if toks.len() == 0 {
        Seq::empty()
    } else if toks.len() == 1 {
        toks[0]
    } else {
        toks[0] + seq![' '] + join_toks(toks.drop_first())
    }
}

/// A finished token, or nothing when it is empty.
pub open spec fn maybe_tok(cur: Seq<char>) -> Seq<Seq<char>> {
    if cur.len() > 0 {
        seq![cur]
    } else {
        Seq::empty()
    }
}

proof fn lemma_tokens_nonspace(t: Seq<char>, s: Seq<char>, cur: Seq<char>)
    requires
        t.len() > 0,
        forall|i: int| 0 <= i < t.len() ==> !is_space_char(#[trigger] t[i]),
    ensures
        tokens_acc(t + s, cur) == tokens_acc(s, cur + t),
    decreases t.len(),
{
    assert((t + s)[0] == t[0]);
    assert((t + s).drop_first() =~= t.drop_first() + s);
    if t.len() == 1 {
        assert(t.drop_first() + s =~= s);
        assert(cur.push(t[0]) =~= cur + t);
    } else {
        lemma_tokens_nonspace(t.drop_first(), s, cur.push(t[0]));
        assert(cur.push(t[0]) + t.drop_first() =~= cur + t);
    }
}

proof fn lemma_tokens_space(s: Seq<char>, cur: Seq<char>)
    ensures
        tokens_acc(seq![' '] + s, cur) == maybe_tok(cur) + tokens_acc(s, Seq::empty()),
{
    assert((seq![' '] + s)[0] == ' ');
    assert((seq![' '] + s).drop_first() =~= s);
}

/// Tokenizing a blank-joined list of clean tokens gives the list back.
pub proof fn lemma_join_toks(toks: Seq<Seq<char>>)
    requires
        forall|i: int| 0 <= i < toks.len() ==> clean_tok(#[trigger] toks[i]),
    ensures
        spec_tokens(join_toks(toks)) == toks,
    decreases toks.len(),
{
    if toks.len() == 0 {
        assert(spec_tokens(Seq::<char>::empty()) =~= Seq::<Seq<char>>::empty());
    } else if toks.len() == 1 {
        assert(toks[0] + Seq::<char>::empty() =~= toks[0]);
        lemma_tokens_nonspace(toks[0], Seq::empty(), Seq::empty());
        assert(Seq::<char>::empty() + toks[0] =~= toks[0]);
        assert(tokens_acc(Seq::<char>::empty(), toks[0]) =~= seq![toks[0]]);
        assert(seq![toks[0]] =~= toks);
    } else {
        let rest = toks.drop_first();
        assert(forall|i: int| 0 <= i < rest.len() ==> clean_tok(#[trigger] rest[i])) by {
            assert(forall|i: int|
                0 <= i < rest.len() ==> #[trigger] rest[i] == toks[i + 1]);
        }
        lemma_join_toks(rest);
        assert(join_toks(toks) == toks[0] + seq![' '] + join_toks(rest));
        assert(toks[0] + seq![' '] + join_toks(rest) =~= toks[0] + (seq![' '] + join_toks(
            rest,
        )));
        lemma_tokens_nonspace(toks[0], seq![' '] + join_toks(rest), Seq::empty());
        assert(Seq::<char>::empty() + toks[0] =~= toks[0]);
        lemma_tokens_space(join_toks(rest), toks[0]);
        assert(maybe_tok(toks[0]) + spec_tokens(join_toks(rest)) =~= seq![toks[0]] + rest);
        assert(seq![toks[0]] + rest =~= toks);
    }
}

/// A blank-joined list of clean tokens holds no line break and does not end
/// in a carriage return.
pub proof fn lemma_join_toks_clean(toks: Seq<Seq<char>>)
    requires
        forall|i: int| 0 <= i < toks.len() ==> clean_tok(#[trigger] toks[i]),
    ensures
        forall|i: int| 0 <= i < join_toks(toks).len() ==> #[trigger] join_toks(toks)[i] != '\n',
        join_toks(toks).len() == 0 || join_toks(toks).last() != '\r',
    decreases toks.len(),
{
    if toks.len() <= 1 {
    } else {
        let rest = toks.drop_first();
        assert(forall|i: int| 0 <= i < rest.len() ==> clean_tok(#[trigger] rest[i])) by {
            assert(forall|i: int|
                0 <= i < rest.len() ==> #[trigger] rest[i] == toks[i + 1]);
        }
        lemma_join_toks_clean(rest);
        assert(join_toks(rest).len() > 0);
    }
}

proof fn lemma_pieces_split(a: Seq<char>, b: Seq<char>, cur: Seq<char>)
    ensures
        pieces_acc(a + b, cur) == pieces_acc(a, cur).drop_last() + pieces_acc(
            b,
            pieces_acc(a, cur).last(),
        ),
    decreases a.len(),
{
    lemma_pieces_acc_len(a, cur);
    if a.len() == 0 {
        assert(a + b =~= b);
        assert(pieces_acc(a, cur) =~= seq![cur]);
        assert(pieces_acc(a, cur).drop_last() =~= Seq::<Seq<char>>::empty());
        assert(Seq::<Seq<char>>::empty() + pieces_acc(b, cur) =~= pieces_acc(b, cur));
    } else {
        assert((a + b)[0] == a[0]);
        assert((a + b).drop_first() =~= a.drop_first() + b);
        if a[0] == '\n' {
            lemma_pieces_split(a.drop_first(), b, Seq::empty());
            lemma_pieces_acc_len(a.drop_first(), Seq::empty());
            assert(pieces_acc(a, cur) == seq![cur] + pieces_acc(a.drop_first(), Seq::empty()));
            assert((seq![cur] + pieces_acc(a.drop_first(), Seq::empty())).drop_last()
                =~= seq![cur] + pieces_acc(a.drop_first(), Seq::empty()).drop_last());
            assert((seq![cur] + pieces_acc(a.drop_first(), Seq::empty())).last()
                == pieces_acc(a.drop_first(), Seq::empty()).last());
            assert(seq![cur] + (pieces_acc(a.drop_first(), Seq::empty()).drop_last()
                + pieces_acc(b, pieces_acc(a.drop_first(), Seq::empty()).last())) =~= (seq![cur]
                + pieces_acc(a.drop_first(), Seq::empty()).drop_last()) + pieces_acc(
                b,
                pieces_acc(a.drop_first(), Seq::empty()).last(),
            ));
        } else {
            lemma_pieces_split(a.drop_first(), b, cur.push(a[0]));
        }
    }
}

proof fn lemma_pieces_line(l: Seq<char>, cur: Seq<char>)
    requires
        forall|i: int| 0 <= i < l.len() ==> #[trigger] l[i] != '\n',
    ensures
        pieces_acc(l + seq!['\n'], cur) == seq![cur + l, Seq::<char>::empty()],
    decreases l.len(),
{
    if l.len() == 0 {
        assert(l + seq!['\n'] =~= seq!['\n']);
        assert(seq!['\n'][0] == '\n');
        assert(seq!['\n'].drop_first() =~= Seq::<char>::empty());
        assert(pieces_acc(Seq::<char>::empty(), Seq::<char>::empty()) =~= seq![
            Seq::<char>::empty(),
        ]);
        assert(pieces_acc(seq!['\n'], cur) =~= seq![cur, Seq::<char>::empty()]);
        assert(cur + l =~= cur);
    } else {
        assert((l + seq!['\n'])[0] == l[0]);
        assert((l + seq!['\n']).drop_first() =~= l.drop_first() + seq!['\n']);
        assert(forall|i: int|
            0 <= i < l.drop_first().len() ==> #[trigger] l.drop_first()[i] == l[i + 1]);
        lemma_pieces_line(l.drop_first(), cur.push(l[0]));
        assert(cur.push(l[0]) + l.drop_first() =~= cur + l);
    }
}

/// Appending one break-free line (and its newline) to a text that ends at a
/// line boundary appends exactly that line to its complete lines.
pub proof fn lemma_lines_snoc(s: Seq<char>, l: Seq<char>)
    requires
        tail_piece(s).len() == 0,
        forall|i: int| 0 <= i < l.len() ==> #[trigger] l[i] != '\n',
        l.len() == 0 || l.last() != '\r',
    ensures
        complete_lines(s + (l + seq!['\n'])) == complete_lines(s).push(l),
        tail_piece(s + (l + seq!['\n'])).len() == 0,
{
    lemma_pieces_split(s, l + seq!['\n'], Seq::empty());
    lemma_pieces_line(l, tail_piece(s));
    lemma_pieces_acc_len(s, Seq::empty());
    assert(pieces_acc(l + seq!['\n'], tail_piece(s)) =~= seq![
        tail_piece(s) + l,
        Seq::<char>::empty(),
    ]);
    assert(tail_piece(s) + l =~= l);
    let parts = raw_pieces(s).drop_last() + seq![l, Seq::<char>::empty()];
    assert(raw_pieces(s + (l + seq!['\n'])) == parts);
    assert(parts.last() =~= Seq::<char>::empty());
    assert(parts.drop_last() =~= raw_pieces(s).drop_last() + seq![l]);
    assert(strip_cr(l) == l);
    assert(complete_lines(s + (l + seq!['\n'])) =~= complete_lines(s).push(l));
}

/// The mathematical report a parsed record carries.
pub open spec fn report_of(b: BenchmarkResults) -> ReportSpec {
    ReportSpec {
        threads: b.threads,
        connections: b.connections,
        latency: (
            b.thread_stats.latency.average@,
            b.thread_stats.latency.standard_deviation@,
            b.thread_stats.latency.max@,
            b.thread_stats.latency.plus_minus_std_dev@,
        ),
        req_sec: (
            b.thread_stats.requests_per_second.average@,
            b.thread_stats.requests_per_second.standard_deviation@,
            b.thread_stats.requests_per_second.max@,
            b.thread_stats.requests_per_second.plus_minus_std_dev@,
        ),
        total_requests: b.total_requests,
        duration_ms: b.duration_ms,
        data_read: b.data_read@,
        socket_errors: match b.socket_errors {
            Some(se) => Some((se.connect, se.read, se.write, se.timeout)),
            None => None,
        },
        non_2xx_3xx: b.non_2xx_3xx,
        rps: b.requests_per_second@,
        tps: b.transfer_per_second@,
        p50: b.latency_distribution.percentile_50@,
        p75: b.latency_distribution.percentile_75@,
        p90: b.latency_distribution.percentile_90@,
        p99: b.latency_distribution.percentile_99@,
    }
}

/// A full report: every unit-suffixed figure present and printable, the
/// duration in the parser's range.
pub open spec fn well_formed_report(rep: ReportSpec) -> bool {
    &&& is_measure(rep.latency.0)
    &&& is_measure(rep.latency.1)
    &&& is_measure(rep.latency.2)
    &&& is_measure(rep.latency.3)
    &&& is_measure(rep.req_sec.0)
    &&& is_measure(rep.req_sec.1)
    &&& is_measure(rep.req_sec.2)
    &&& is_measure(rep.req_sec.3)
    &&& is_measure(rep.data_read)
    &&& is_measure(rep.rps)
    &&& is_measure(rep.tps)
    &&& is_measure(rep.p50)
    &&& is_measure(rep.p75)
    &&& is_measure(rep.p90)
    &&& is_measure(rep.p99)
    &&& rep.duration_ms < 1_000_000_000_000u64
}

/// The duration token of the totals row: seconds with three decimals and
/// the trailing `s,`.
pub open spec fn duration_token(d: u64) -> Seq<char> {
    dec_digits((d / 1000) as nat) + seq!['.'] + crate::text::dec3((d % 1000) as nat) + seq![
        's',
        ',',
    ]
}

/// The eight rows every summary carries, in print order: threads, the two
/// four-figure blocks, the four percentiles, and the totals row.
pub open spec fn base_rows(rep: ReportSpec) -> Seq<Seq<Seq<char>>> {
    seq![
        seq![
            dec_digits(rep.threads as nat),
            "threads"@,
            "and"@,
            dec_digits(rep.connections as nat),
            "connections"@,
        ],
        seq!["Latency"@, rep.latency.0, rep.latency.1, rep.latency.2, rep.latency.3],
        seq!["Req/Sec"@, rep.req_sec.0, rep.req_sec.1, rep.req_sec.2, rep.req_sec.3],
        seq!["50%"@, rep.p50],
        seq!["75%"@, rep.p75],
        seq!["90%"@, rep.p90],
        seq!["99%"@, rep.p99],
        seq![
            dec_digits(rep.total_requests as nat),
            "requests"@,
            "in"@,
            duration_token(rep.duration_ms),
            rep.data_read,
            "read"@,
        ],
    ]
}

pub open spec fn socket_row(se: (u32, u32, u32, u32)) -> Seq<Seq<char>> {
    seq![
        "Socket"@,
        "errors:"@,
        "connect"@,
        dec_digits(se.0 as nat).push(','),
        "read"@,
        dec_digits(se.1 as nat).push(','),
        "write"@,
        dec_digits(se.2 as nat).push(','),
        "timeout"@,
        dec_digits(se.3 as nat),
    ]
}

pub open spec fn non_2xx_row(n: u32) -> Seq<Seq<char>> {
    seq!["Non-2xx"@, "or"@, "3xx"@, "responses:"@, dec_digits(n as nat)]
}

/// The token rows of a rendered summary, in print order.
pub open spec fn summary_token_lines(rep: ReportSpec) -> Seq<Seq<Seq<char>>> {
    let with_socket = match rep.socket_errors {
        Some(se) => base_rows(rep).push(socket_row(se)),
        None => base_rows(rep),
    };
    let with_non = match rep.non_2xx_3xx {
        Some(n) => with_socket.push(non_2xx_row(n)),
        None => with_socket,
    };
    with_non.push(seq!["Requests/sec:"@, rep.rps]).push(seq!["Transfer/sec:"@, rep.tps])
}

/// Token rows rendered as text: each row blank-joined and newline-ended.
pub open spec fn render_lines(tls: Seq<Seq<Seq<char>>>) -> Seq<char>
    decreases tls.len(),
{
    if tls.len() == 0 {
        Seq::empty()
    } else {
        render_lines(tls.drop_last()) + (join_toks(tls.last()) + seq!['\n'])
    }
}

/// The canonical text of a summary.
pub open spec fn spec_render(rep: ReportSpec) -> Seq<char> {
    render_lines(summary_token_lines(rep))
}

/// All rows of clean tokens.
pub open spec fn all_rows_clean(tls: Seq<Seq<Seq<char>>>) -> bool {
    forall|i: int, j: int|
        0 <= i < tls.len() && 0 <= j < tls[i].len() ==> clean_tok(#[trigger] tls[i][j])
}

/// Rendering rows of clean tokens gives them back as the text's lines.
pub proof fn lemma_render_lines(tls: Seq<Seq<Seq<char>>>)
    requires
        all_rows_clean(tls),
    ensures
        tail_piece(render_lines(tls)).len() == 0,
        spec_lines(render_lines(tls)) =~= tls.map_values(|tl: Seq<Seq<char>>| join_toks(tl)),
        forall|i: int|
            0 <= i < tls.len() ==> #[trigger] spec_lines(render_lines(tls))[i] == join_toks(
                tls[i],
            ),
    decreases tls.len(),
{
    if tls.len() == 0 {
        assert(pieces_acc(Seq::<char>::empty(), Seq::<char>::empty()) =~= seq![
            Seq::<char>::empty(),
        ]);
        assert(complete_lines(Seq::<char>::empty()) =~= Seq::<Seq<char>>::empty());
        assert(tls.map_values(|tl: Seq<Seq<char>>| join_toks(tl)) =~= Seq::<Seq<char>>::empty());
    } else {
        let head = tls.drop_last();
        assert(all_rows_clean(head)) by {
            assert(forall|i: int|
                0 <= i < head.len() ==> #[trigger] head[i] == tls[i]);
        }
        lemma_render_lines(head);
        let last = tls.last();
        assert(forall|j: int| 0 <= j < last.len() ==> clean_tok(#[trigger] last[j]));
        lemma_join_toks_clean(last);
        lemma_lines_snoc(render_lines(head), join_toks(last));
        assert(spec_lines(render_lines(tls)) =~= spec_lines(render_lines(head)).push(
            join_toks(last),
        ));
        assert(head.map_values(|tl: Seq<Seq<char>>| join_toks(tl)).push(join_toks(last))
            =~= tls.map_values(|tl: Seq<Seq<char>>| join_toks(tl)));
    }
}

/// A decimal rendering is a clean token, a figure, and reads back as its
/// number.
pub proof fn lemma_dec_token(n: u32)
    ensures
        clean_tok(dec_digits(n as nat)),
        is_measure(dec_digits(n as nat)),
        tok_u32(dec_digits(n as nat)) == Some(n),
    decreases n,
{
    crate::text::lemma_dec_digits_val(n as nat);
    crate::text::lemma_pow10_19();
    reveal_with_fuel(crate::text::pow10, 12);
    crate::text::lemma_dec_digits_len(n as nat, 10);
    crate::text::lemma_pow10_mono(10, 19);
    crate::text::lemma_dec_val_bound(dec_digits(n as nat));
    assert(forall|i: int|
        0 <= i < dec_digits(n as nat).len() ==> is_digit_char(
            #[trigger] dec_digits(n as nat)[i],
        ));
}

/// The same, for the comma-suffixed socket-error counts.
pub proof fn lemma_dec_comma_token(n: u32)
    ensures
        clean_tok(dec_digits(n as nat).push(',')),
        u32_comma_tok(dec_digits(n as nat).push(',')) == Some(n),
{
    lemma_dec_token(n);
    let t = dec_digits(n as nat).push(',');
    assert(t.drop_last() =~= dec_digits(n as nat));
    assert(forall|i: int|
        0 <= i < t.len() ==> !is_space_char(#[trigger] t[i]) && t[i] != '\n' && t[i] != '\r')
        by {
        assert(forall|i: int|
            0 <= i < t.len() - 1 ==> #[trigger] t[i] == dec_digits(n as nat)[i]);
    }
}

/// The duration token is clean and reads back as its milliseconds.
pub proof fn lemma_duration_token(d: u64)
    requires
        d < 1_000_000_000_000u64,
    ensures
        clean_tok(duration_token(d)),
        duration_ms_tok(duration_token(d)) == Some(d),
{
    let ip = dec_digits((d / 1000) as nat);
    let fp = crate::text::dec3((d % 1000) as nat);
    let t = duration_token(d);
    crate::text::lemma_dec_digits_val((d / 1000) as nat);
    crate::text::lemma_dec3((d % 1000) as nat);
    reveal_with_fuel(crate::text::pow10, 10);
    crate::text::lemma_dec_digits_len((d / 1000) as nat, 9);
    assert(t =~= ip + seq!['.'] + fp + seq!['s', ',']);
    assert(forall|i: int|
        0 <= i < t.len() ==> !is_space_char(#[trigger] t[i]) && t[i] != '\n' && t[i] != '\r')
        by {
        assert(forall|i: int| 0 <= i < ip.len() ==> t[i] == ip[i]);
        assert(forall|i: int|
            0 <= i < fp.len() ==> t[ip.len() + 1 + i] == fp[i]);
        assert(t[ip.len() as int] == '.');
        assert(t[t.len() - 2] == 's');
        assert(t[t.len() - 1] == ',');
        assert(forall|i: int|
            0 <= i < t.len() ==> is_digit_char(#[trigger] t[i]) || t[i] == '.' || t[i] == 's'
                || t[i] == ',');
    }
    assert(t[t.len() - 2] == 's');
    assert(t.last() == ',');
    let p = t.take(t.len() - 2);
    assert(p =~= ip + seq!['.'] + fp);
    // the dot sits right after the integer digits
    lemma_until_dot_at(p, ip.len() as int);
    assert(p.take(ip.len() as int) =~= ip);
    assert(p.skip(ip.len() as int + 1) =~= fp);
    assert(decimal_ms(p) == Some(((d / 1000) * 1000 + frac_ms(fp)) as u64));
    assert(frac_ms(fp) == dec_val(fp.take(3)));
    assert(fp.take(3) =~= fp);
    assert((d / 1000) * 1000 + d % 1000 == d);
}

proof fn lemma_until_dot_at(p: Seq<char>, k: int)
    requires
        0 <= k <= p.len(),
        forall|j: int| 0 <= j < k ==> #[trigger] p[j] != '.',
        k < p.len() ==> p[k] == '.',
    ensures
        until_dot(p) == k,
    decreases k,
{
    if k > 0 {
        assert(forall|j: int| 0 <= j < k - 1 ==> #[trigger] p.drop_first()[j] == p[j + 1]);
        if k < p.len() {
            assert(p.drop_first()[k - 1] == p[k]);
        }
        lemma_until_dot_at(p.drop_first(), k - 1);
    }
}

proof fn lemma_apply_threads(rep: ReportSpec, t: u32, c: u32)
    ensures
        apply_line(
            rep,
            seq![
                dec_digits(t as nat),
                "threads"@,
                "and"@,
                dec_digits(c as nat),
                "connections"@,
            ],
        ) == (ReportSpec { threads: t, connections: c, ..rep }),
{
    reveal_strlit("threads");
    reveal_strlit("and");
    reveal_strlit("connections");
    reveal_strlit("Latency");
    reveal_strlit("Req/Sec");
    reveal_strlit("requests");
    reveal_strlit("in");
    reveal_strlit("read");
    reveal_strlit("Socket");
    reveal_strlit("errors:");
    reveal_strlit("connect");
    reveal_strlit("write");
    reveal_strlit("timeout");
    reveal_strlit("Non-2xx");
    reveal_strlit("or");
    reveal_strlit("3xx");
    reveal_strlit("responses:");
    reveal_strlit("Requests/sec:");
    reveal_strlit("Transfer/sec:");
    reveal_strlit("50%");
    reveal_strlit("75%");
    reveal_strlit("90%");
    reveal_strlit("99%");
    lemma_dec_token(t);
    lemma_dec_token(c);
    let toks = seq![
        dec_digits(t as nat),
        "threads"@,
        "and"@,
        dec_digits(c as nat),
        "connections"@,
    ];
    assert(threads_line(toks) == Some((t, c)));
    assert(toks[0] != "Latency"@);
    assert(toks[0] != "Req/Sec"@);
    assert(four_measure_line(toks, "Latency"@) is None);
    assert(four_measure_line(toks, "Req/Sec"@) is None);
    assert(totals_line(toks) is None);
    assert(socket_errors_line(toks) is None);
    assert(toks[0] != "Non-2xx"@);
    assert(non_2xx_line(toks) is None);
    assert(one_measure_line(toks, "Requests/sec:"@) is None);
    assert(one_measure_line(toks, "Transfer/sec:"@) is None);
    assert(one_measure_line(toks, "50%"@) is None);
    assert(one_measure_line(toks, "75%"@) is None);
    assert(one_measure_line(toks, "90%"@) is None);
    assert(one_measure_line(toks, "99%"@) is None);
}

proof fn lemma_apply_latency(
    rep: ReportSpec,
    m: (Seq<char>, Seq<char>, Seq<char>, Seq<char>),
)
    requires
        is_measure(m.0),
        is_measure(m.1),
        is_measure(m.2),
        is_measure(m.3),
    ensures
        apply_line(rep, seq!["Latency"@, m.0, m.1, m.2, m.3]) == (ReportSpec {
            latency: m,
            ..rep
        }),
{
    reveal_strlit("threads");
    reveal_strlit("and");
    reveal_strlit("connections");
    reveal_strlit("Latency");
    reveal_strlit("Req/Sec");
    reveal_strlit("requests");
    reveal_strlit("in");
    reveal_strlit("read");
    reveal_strlit("Socket");
    reveal_strlit("errors:");
    reveal_strlit("connect");
    reveal_strlit("write");
    reveal_strlit("timeout");
    reveal_strlit("Non-2xx");
    reveal_strlit("or");
    reveal_strlit("3xx");
    reveal_strlit("responses:");
    reveal_strlit("Requests/sec:");
    reveal_strlit("Transfer/sec:");
    reveal_strlit("50%");
    reveal_strlit("75%");
    reveal_strlit("90%");
    reveal_strlit("99%");
    let toks = seq!["Latency"@, m.0, m.1, m.2, m.3];
    assert(toks[1] != "threads"@);
    assert(threads_line(toks) is None);
    assert(four_measure_line(toks, "Latency"@) == Some(m));
    assert("Latency"@ != "Req/Sec"@) by {
        assert("Latency"@[0] == 'L');
        assert("Req/Sec"@[0] == 'R');
    }
    assert(four_measure_line(toks, "Req/Sec"@) is None);
    assert(totals_line(toks) is None);
    assert(socket_errors_line(toks) is None);
    assert("Latency"@ != "Non-2xx"@) by {
        assert("Latency"@[0] == 'L');
        assert("Non-2xx"@[0] == 'N');
    }
    assert(non_2xx_line(toks) is None);
    assert(one_measure_line(toks, "Requests/sec:"@) is None);
    assert(one_measure_line(toks, "Transfer/sec:"@) is None);
    assert(one_measure_line(toks, "50%"@) is None);
    assert(one_measure_line(toks, "75%"@) is None);
    assert(one_measure_line(toks, "90%"@) is None);
    assert(one_measure_line(toks, "99%"@) is None);
}

proof fn lemma_apply_req_sec(
    rep: ReportSpec,
    m: (Seq<char>, Seq<char>, Seq<char>, Seq<char>),
)
    requires
        is_measure(m.0),
        is_measure(m.1),
        is_measure(m.2),
        is_measure(m.3),
    ensures
        apply_line(rep, seq!["Req/Sec"@, m.0, m.1, m.2, m.3]) == (ReportSpec {
            req_sec: m,
            ..rep
        }),
{
    reveal_strlit("threads");
    reveal_strlit("and");
    reveal_strlit("connections");
    reveal_strlit("Latency");
    reveal_strlit("Req/Sec");
    reveal_strlit("requests");
    reveal_strlit("in");
    reveal_strlit("read");
    reveal_strlit("Socket");
    reveal_strlit("errors:");
    reveal_strlit("connect");
    reveal_strlit("write");
    reveal_strlit("timeout");
    reveal_strlit("Non-2xx");
    reveal_strlit("or");
    reveal_strlit("3xx");
    reveal_strlit("responses:");
    reveal_strlit("Requests/sec:");
    reveal_strlit("Transfer/sec:");
    reveal_strlit("50%");
    reveal_strlit("75%");
    reveal_strlit("90%");
    reveal_strlit("99%");
    let toks = seq!["Req/Sec"@, m.0, m.1, m.2, m.3];
    assert(toks[1] != "threads"@);
    assert(threads_line(toks) is None);
    assert("Req/Sec"@ != "Latency"@) by {
        assert("Req/Sec"@[0] == 'R');
        assert("Latency"@[0] == 'L');
    }
    assert(four_measure_line(toks, "Latency"@) is None);
    assert(four_measure_line(toks, "Req/Sec"@) == Some(m));
    assert(totals_line(toks) is None);
    assert(socket_errors_line(toks) is None);
    assert("Req/Sec"@ != "Non-2xx"@) by {
        assert("Req/Sec"@[0] == 'R');
        assert("Non-2xx"@[0] == 'N');
    }
    assert(non_2xx_line(toks) is None);
    assert(one_measure_line(toks, "Requests/sec:"@) is None);
    assert(one_measure_line(toks, "Transfer/sec:"@) is None);
    assert(one_measure_line(toks, "50%"@) is None);
    assert(one_measure_line(toks, "75%"@) is None);
    assert(one_measure_line(toks, "90%"@) is None);
    assert(one_measure_line(toks, "99%"@) is None);
}

proof fn lemma_apply_totals(rep: ReportSpec, tr: u32, d: u64, read: Seq<char>)
    requires
        is_measure(read),
        d < 1_000_000_000_000u64,
    ensures
        apply_line(
            rep,
            seq![
                dec_digits(tr as nat),
                "requests"@,
                "in"@,
                duration_token(d),
                read,
                "read"@,
            ],
        ) == (ReportSpec { total_requests: tr, duration_ms: d, data_read: read, ..rep }),
{
    reveal_strlit("threads");
    reveal_strlit("and");
    reveal_strlit("connections");
    reveal_strlit("Latency");
    reveal_strlit("Req/Sec");
    reveal_strlit("requests");
    reveal_strlit("in");
    reveal_strlit("read");
    reveal_strlit("Socket");
    reveal_strlit("errors:");
    reveal_strlit("connect");
    reveal_strlit("write");
    reveal_strlit("timeout");
    reveal_strlit("Non-2xx");
    reveal_strlit("or");
    reveal_strlit("3xx");
    reveal_strlit("responses:");
    reveal_strlit("Requests/sec:");
    reveal_strlit("Transfer/sec:");
    reveal_strlit("50%");
    reveal_strlit("75%");
    reveal_strlit("90%");
    reveal_strlit("99%");
    lemma_dec_token(tr);
    lemma_duration_token(d);
    let toks = seq![
        dec_digits(tr as nat),
        "requests"@,
        "in"@,
        duration_token(d),
        read,
        "read"@,
    ];
    assert(threads_line(toks) is None);
    assert(four_measure_line(toks, "Latency"@) is None);
    assert(four_measure_line(toks, "Req/Sec"@) is None);
    assert(totals_line(toks) == Some((tr, d, read)));
    assert(socket_errors_line(toks) is None);
    assert(non_2xx_line(toks) is None);
    assert(one_measure_line(toks, "Requests/sec:"@) is None);
    assert(one_measure_line(toks, "Transfer/sec:"@) is None);
    assert(one_measure_line(toks, "50%"@) is None);
    assert(one_measure_line(toks, "75%"@) is None);
    assert(one_measure_line(toks, "90%"@) is None);
    assert(one_measure_line(toks, "99%"@) is None);
}

proof fn lemma_apply_socket(rep: ReportSpec, se: (u32, u32, u32, u32))
    ensures
        apply_line(
            rep,
            seq![
                "Socket"@,
                "errors:"@,
                "connect"@,
                dec_digits(se.0 as nat).push(','),
                "read"@,
                dec_digits(se.1 as nat).push(','),
                "write"@,
                dec_digits(se.2 as nat).push(','),
                "timeout"@,
                dec_digits(se.3 as nat),
            ],
        ) == (ReportSpec { socket_errors: Some(se), ..rep }),
{
    reveal_strlit("threads");
    reveal_strlit("and");
    reveal_strlit("connections");
    reveal_strlit("Latency");
    reveal_strlit("Req/Sec");
    reveal_strlit("requests");
    reveal_strlit("in");
    reveal_strlit("read");
    reveal_strlit("Socket");
    reveal_strlit("errors:");
    reveal_strlit("connect");
    reveal_strlit("write");
    reveal_strlit("timeout");
    reveal_strlit("Non-2xx");
    reveal_strlit("or");
    reveal_strlit("3xx");
    reveal_strlit("responses:");
    reveal_strlit("Requests/sec:");
    reveal_strlit("Transfer/sec:");
    reveal_strlit("50%");
    reveal_strlit("75%");
    reveal_strlit("90%");
    reveal_strlit("99%");
    lemma_dec_comma_token(se.0);
    lemma_dec_comma_token(se.1);
    lemma_dec_comma_token(se.2);
    lemma_dec_token(se.3);
    let toks = seq![
        "Socket"@,
        "errors:"@,
        "connect"@,
        dec_digits(se.0 as nat).push(','),
        "read"@,
        dec_digits(se.1 as nat).push(','),
        "write"@,
        dec_digits(se.2 as nat).push(','),
        "timeout"@,
        dec_digits(se.3 as nat),
    ];
    assert(threads_line(toks) is None);
    assert(four_measure_line(toks, "Latency"@) is None);
    assert(four_measure_line(toks, "Req/Sec"@) is None);
    assert(totals_line(toks) is None);
    assert(socket_errors_line(toks) == Some(se));
    assert(non_2xx_line(toks) is None);
    assert(one_measure_line(toks, "Requests/sec:"@) is None);
    assert(one_measure_line(toks, "Transfer/sec:"@) is None);
    assert(one_measure_line(toks, "50%"@) is None);
    assert(one_measure_line(toks, "75%"@) is None);
    assert(one_measure_line(toks, "90%"@) is None);
    assert(one_measure_line(toks, "99%"@) is None);
}

proof fn lemma_apply_non_2xx(rep: ReportSpec, n: u32)
    ensures
        apply_line(
            rep,
            seq!["Non-2xx"@, "or"@, "3xx"@, "responses:"@, dec_digits(n as nat)],
        ) == (ReportSpec { non_2xx_3xx: Some(n), ..rep }),
{
    reveal_strlit("threads");
    reveal_strlit("and");
    reveal_strlit("connections");
    reveal_strlit("Latency");
    reveal_strlit("Req/Sec");
    reveal_strlit("requests");
    reveal_strlit("in");
    reveal_strlit("read");
    reveal_strlit("Socket");
    reveal_strlit("errors:");
    reveal_strlit("connect");
    reveal_strlit("write");
    reveal_strlit("timeout");
    reveal_strlit("Non-2xx");
    reveal_strlit("or");
    reveal_strlit("3xx");
    reveal_strlit("responses:");
    reveal_strlit("Requests/sec:");
    reveal_strlit("Transfer/sec:");
    reveal_strlit("50%");
    reveal_strlit("75%");
    reveal_strlit("90%");
    reveal_strlit("99%");
    lemma_dec_token(n);
    let toks = seq!["Non-2xx"@, "or"@, "3xx"@, "responses:"@, dec_digits(n as nat)];
    assert(toks[1] != "threads"@) by {
        assert("or"@.len() == 2);
        assert("threads"@.len() == 7);
    }
    assert(threads_line(toks) is None);
    assert("Non-2xx"@ != "Latency"@) by {
        assert("Non-2xx"@[0] == 'N');
        assert("Latency"@[0] == 'L');
    }
    assert(four_measure_line(toks, "Latency"@) is None);
    assert("Non-2xx"@ != "Req/Sec"@) by {
        assert("Non-2xx"@[0] == 'N');
        assert("Req/Sec"@[0] == 'R');
    }
    assert(four_measure_line(toks, "Req/Sec"@) is None);
    assert(totals_line(toks) is None);
    assert(socket_errors_line(toks) is None);
    assert(non_2xx_line(toks) == Some(n));
    assert(one_measure_line(toks, "Requests/sec:"@) is None);
    assert(one_measure_line(toks, "Transfer/sec:"@) is None);
    assert(one_measure_line(toks, "50%"@) is None);
    assert(one_measure_line(toks, "75%"@) is None);
    assert(one_measure_line(toks, "90%"@) is None);
    assert(one_measure_line(toks, "99%"@) is None);
}

proof fn lemma_one_line_common(toks: Seq<Seq<char>>)
    requires
        toks.len() == 2,
    ensures
        threads_line(toks) is None,
        four_measure_line(toks, "Latency"@) is None,
        four_measure_line(toks, "Req/Sec"@) is None,
        totals_line(toks) is None,
        socket_errors_line(toks) is None,
        non_2xx_line(toks) is None,
{
}

proof fn lemma_apply_p50(rep: ReportSpec, v: Seq<char>)
    requires
        is_measure(v),
    ensures
        apply_line(rep, seq!["50%"@, v]) == (ReportSpec { p50: v, ..rep }),
{
    reveal_strlit("threads");
    reveal_strlit("and");
    reveal_strlit("connections");
    reveal_strlit("Latency");
    reveal_strlit("Req/Sec");
    reveal_strlit("requests");
    reveal_strlit("in");
    reveal_strlit("read");
    reveal_strlit("Socket");
    reveal_strlit("errors:");
    reveal_strlit("connect");
    reveal_strlit("write");
    reveal_strlit("timeout");
    reveal_strlit("Non-2xx");
    reveal_strlit("or");
    reveal_strlit("3xx");
    reveal_strlit("responses:");
    reveal_strlit("Requests/sec:");
    reveal_strlit("Transfer/sec:");
    reveal_strlit("50%");
    reveal_strlit("75%");
    reveal_strlit("90%");
    reveal_strlit("99%");
    let toks = seq!["50%"@, v];
    lemma_one_line_common(toks);
    assert(one_measure_line(toks, "Requests/sec:"@) is None);
    assert(one_measure_line(toks, "Transfer/sec:"@) is None);
    assert(one_measure_line(toks, "50%"@) == Some(v));
    assert("50%"@ != "75%"@) by {
        assert("50%"@[0] == '5');
        assert("75%"@[0] == '7');
    }
    assert("50%"@ != "90%"@) by {
        assert("50%"@[0] == '5');
        assert("90%"@[0] == '9');
    }
    assert("50%"@ != "99%"@) by {
        assert("50%"@[0] == '5');
        assert("99%"@[0] == '9');
    }
    assert(one_measure_line(toks, "75%"@) is None);
    assert(one_measure_line(toks, "90%"@) is None);
    assert(one_measure_line(toks, "99%"@) is None);
}

proof fn lemma_apply_p75(rep: ReportSpec, v: Seq<char>)
    requires
        is_measure(v),
    ensures
        apply_line(rep, seq!["75%"@, v]) == (ReportSpec { p75: v, ..rep }),
{
    reveal_strlit("threads");
    reveal_strlit("and");
    reveal_strlit("connections");
    reveal_strlit("Latency");
    reveal_strlit("Req/Sec");
    reveal_strlit("requests");
    reveal_strlit("in");
    reveal_strlit("read");
    reveal_strlit("Socket");
    reveal_strlit("errors:");
    reveal_strlit("connect");
    reveal_strlit("write");
    reveal_strlit("timeout");
    reveal_strlit("Non-2xx");
    reveal_strlit("or");
    reveal_strlit("3xx");
    reveal_strlit("responses:");
    reveal_strlit("Requests/sec:");
    reveal_strlit("Transfer/sec:");
    reveal_strlit("50%");
    reveal_strlit("75%");
    reveal_strlit("90%");
    reveal_strlit("99%");
    let toks = seq!["75%"@, v];
    lemma_one_line_common(toks);
    assert(one_measure_line(toks, "Requests/sec:"@) is None);
    assert(one_measure_line(toks, "Transfer/sec:"@) is None);
    assert("75%"@ != "50%"@) by {
        assert("75%"@[0] == '7');
        assert("50%"@[0] == '5');
    }
    assert("75%"@ != "90%"@) by {
        assert("75%"@[0] == '7');
        assert("90%"@[0] == '9');
    }
    assert("75%"@ != "99%"@) by {
        assert("75%"@[0] == '7');
        assert("99%"@[0] == '9');
    }
    assert(one_measure_line(toks, "50%"@) is None);
    assert(one_measure_line(toks, "75%"@) == Some(v));
    assert(one_measure_line(toks, "90%"@) is None);
    assert(one_measure_line(toks, "99%"@) is None);
}

proof fn lemma_apply_p90(rep: ReportSpec, v: Seq<char>)
    requires
        is_measure(v),
    ensures
        apply_line(rep, seq!["90%"@, v]) == (ReportSpec { p90: v, ..rep }),
{
    reveal_strlit("threads");
    reveal_strlit("and");
    reveal_strlit("connections");
    reveal_strlit("Latency");
    reveal_strlit("Req/Sec");
    reveal_strlit("requests");
    reveal_strlit("in");
    reveal_strlit("read");
    reveal_strlit("Socket");
    reveal_strlit("errors:");
    reveal_strlit("connect");
    reveal_strlit("write");
    reveal_strlit("timeout");
    reveal_strlit("Non-2xx");
    reveal_strlit("or");
    reveal_strlit("3xx");
    reveal_strlit("responses:");
    reveal_strlit("Requests/sec:");
    reveal_strlit("Transfer/sec:");
    reveal_strlit("50%");
    reveal_strlit("75%");
    reveal_strlit("90%");
    reveal_strlit("99%");
    let toks = seq!["90%"@, v];
    lemma_one_line_common(toks);
    assert(one_measure_line(toks, "Requests/sec:"@) is None);
    assert(one_measure_line(toks, "Transfer/sec:"@) is None);
    assert("90%"@ != "50%"@) by {
        assert("90%"@[0] == '9');
        assert("50%"@[0] == '5');
    }
    assert("90%"@ != "75%"@) by {
        assert("90%"@[0] == '9');
        assert("75%"@[0] == '7');
    }
    assert("90%"@ != "99%"@) by {
        assert("90%"@[1] == '0');
        assert("99%"@[1] == '9');
    }
    assert(one_measure_line(toks, "50%"@) is None);
    assert(one_measure_line(toks, "75%"@) is None);
    assert(one_measure_line(toks, "90%"@) == Some(v));
    assert(one_measure_line(toks, "99%"@) is None);
}

proof fn lemma_apply_p99(rep: ReportSpec, v: Seq<char>)
    requires
        is_measure(v),
    ensures
        apply_line(rep, seq!["99%"@, v]) == (ReportSpec { p99: v, ..rep }),
{
    reveal_strlit("threads");
    reveal_strlit("and");
    reveal_strlit("connections");
    reveal_strlit("Latency");
    reveal_strlit("Req/Sec");
    reveal_strlit("requests");
    reveal_strlit("in");
    reveal_strlit("read");
    reveal_strlit("Socket");
    reveal_strlit("errors:");
    reveal_strlit("connect");
    reveal_strlit("write");
    reveal_strlit("timeout");
    reveal_strlit("Non-2xx");
    reveal_strlit("or");
    reveal_strlit("3xx");
    reveal_strlit("responses:");
    reveal_strlit("Requests/sec:");
    reveal_strlit("Transfer/sec:");
    reveal_strlit("50%");
    reveal_strlit("75%");
    reveal_strlit("90%");
    reveal_strlit("99%");
    let toks = seq!["99%"@, v];
    lemma_one_line_common(toks);
    assert(one_measure_line(toks, "Requests/sec:"@) is None);
    assert(one_measure_line(toks, "Transfer/sec:"@) is None);
    assert("99%"@ != "50%"@) by {
        assert("99%"@[0] == '9');
        assert("50%"@[0] == '5');
    }
    assert("99%"@ != "75%"@) by {
        assert("99%"@[0] == '9');
        assert("75%"@[0] == '7');
    }
    assert("99%"@ != "90%"@) by {
        assert("99%"@[1] == '9');
        assert("90%"@[1] == '0');
    }
    assert(one_measure_line(toks, "50%"@) is None);
    assert(one_measure_line(toks, "75%"@) is None);
    assert(one_measure_line(toks, "90%"@) is None);
    assert(one_measure_line(toks, "99%"@) == Some(v));
}

proof fn lemma_apply_rps(rep: ReportSpec, v: Seq<char>)
    requires
        is_measure(v),
    ensures
        apply_line(rep, seq!["Requests/sec:"@, v]) == (ReportSpec { rps: v, ..rep }),
{
    reveal_strlit("threads");
    reveal_strlit("and");
    reveal_strlit("connections");
    reveal_strlit("Latency");
    reveal_strlit("Req/Sec");
    reveal_strlit("requests");
    reveal_strlit("in");
    reveal_strlit("read");
    reveal_strlit("Socket");
    reveal_strlit("errors:");
    reveal_strlit("connect");
    reveal_strlit("write");
    reveal_strlit("timeout");
    reveal_strlit("Non-2xx");
    reveal_strlit("or");
    reveal_strlit("3xx");
    reveal_strlit("responses:");
    reveal_strlit("Requests/sec:");
    reveal_strlit("Transfer/sec:");
    reveal_strlit("50%");
    reveal_strlit("75%");
    reveal_strlit("90%");
    reveal_strlit("99%");
    let toks = seq!["Requests/sec:"@, v];
    lemma_one_line_common(toks);
    assert(one_measure_line(toks, "Requests/sec:"@) == Some(v));
    assert("Requests/sec:"@ != "Transfer/sec:"@) by {
        assert("Requests/sec:"@[0] == 'R');
        assert("Transfer/sec:"@[0] == 'T');
    }
    assert(one_measure_line(toks, "Transfer/sec:"@) is None);
    assert(one_measure_line(toks, "50%"@) is None);
    assert(one_measure_line(toks, "75%"@) is None);
    assert(one_measure_line(toks, "90%"@) is None);
    assert(one_measure_line(toks, "99%"@) is None);
}

proof fn lemma_apply_tps(rep: ReportSpec, v: Seq<char>)
    requires
        is_measure(v),
    ensures
        apply_line(rep, seq!["Transfer/sec:"@, v]) == (ReportSpec { tps: v, ..rep }),
{
    reveal_strlit("threads");
    reveal_strlit("and");
    reveal_strlit("connections");
    reveal_strlit("Latency");
    reveal_strlit("Req/Sec");
    reveal_strlit("requests");
    reveal_strlit("in");
    reveal_strlit("read");
    reveal_strlit("Socket");
    reveal_strlit("errors:");
    reveal_strlit("connect");
    reveal_strlit("write");
    reveal_strlit("timeout");
    reveal_strlit("Non-2xx");
    reveal_strlit("or");
    reveal_strlit("3xx");
    reveal_strlit("responses:");
    reveal_strlit("Requests/sec:");
    reveal_strlit("Transfer/sec:");
    reveal_strlit("50%");
    reveal_strlit("75%");
    reveal_strlit("90%");
    reveal_strlit("99%");
    let toks = seq!["Transfer/sec:"@, v];
    lemma_one_line_common(toks);
    assert("Transfer/sec:"@ != "Requests/sec:"@) by {
        assert("Transfer/sec:"@[0] == 'T');
        assert("Requests/sec:"@[0] == 'R');
    }
    assert(one_measure_line(toks, "Requests/sec:"@) is None);
    assert(one_measure_line(toks, "Transfer/sec:"@) == Some(v));
    assert(one_measure_line(toks, "50%"@) is None);
    assert(one_measure_line(toks, "75%"@) is None);
    assert(one_measure_line(toks, "90%"@) is None);
    assert(one_measure_line(toks, "99%"@) is None);
}

proof fn lemma_fold_step(lines: Seq<Seq<char>>, k: int)
    requires
        0 <= k < lines.len(),
    ensures
        fold_report(lines.take(k + 1)) == apply_line(
            fold_report(lines.take(k)),
            spec_tokens(lines[k]),
        ),
{
    assert(lines.take(k + 1).drop_last() =~= lines.take(k));
    assert(lines.take(k + 1).last() == lines[k]);
}

proof fn lemma_words_clean()
    ensures
        clean_tok("threads"@),
        clean_tok("and"@),
        clean_tok("connections"@),
        clean_tok("Latency"@),
        clean_tok("Req/Sec"@),
        clean_tok("requests"@),
        clean_tok("in"@),
        clean_tok("read"@),
        clean_tok("Socket"@),
        clean_tok("errors:"@),
        clean_tok("connect"@),
        clean_tok("write"@),
        clean_tok("timeout"@),
        clean_tok("Non-2xx"@),
        clean_tok("or"@),
        clean_tok("3xx"@),
        clean_tok("responses:"@),
        clean_tok("Requests/sec:"@),
        clean_tok("Transfer/sec:"@),
        clean_tok("50%"@),
        clean_tok("75%"@),
        clean_tok("90%"@),
        clean_tok("99%"@),
{
    reveal_strlit("threads");
    reveal_strlit("and");
    reveal_strlit("connections");
    reveal_strlit("Latency");
    reveal_strlit("Req/Sec");
    reveal_strlit("requests");
    reveal_strlit("in");
    reveal_strlit("read");
    reveal_strlit("Socket");
    reveal_strlit("errors:");
    reveal_strlit("connect");
    reveal_strlit("write");
    reveal_strlit("timeout");
    reveal_strlit("Non-2xx");
    reveal_strlit("or");
    reveal_strlit("3xx");
    reveal_strlit("responses:");
    reveal_strlit("Requests/sec:");
    reveal_strlit("Transfer/sec:");
    reveal_strlit("50%");
    reveal_strlit("75%");
    reveal_strlit("90%");
    reveal_strlit("99%");
}

/// Every token of every summary row is clean.
proof fn lemma_rows_clean(rep: ReportSpec)
    requires
        well_formed_report(rep),
    ensures
        all_rows_clean(summary_token_lines(rep)),
        forall|i: int, j: int|
            0 <= i < 8 && 0 <= j < base_rows(rep)[i].len() ==> clean_tok(
                #[trigger] base_rows(rep)[i][j],
            ),
{
    lemma_words_clean();
    lemma_dec_token(rep.threads);
    lemma_dec_token(rep.connections);
    lemma_dec_token(rep.total_requests);
    lemma_duration_token(rep.duration_ms);
    let b = base_rows(rep);
    assert(forall|j: int| 0 <= j < b[0].len() ==> clean_tok(#[trigger] b[0][j]));
    assert(forall|j: int| 0 <= j < b[1].len() ==> clean_tok(#[trigger] b[1][j]));
    assert(forall|j: int| 0 <= j < b[2].len() ==> clean_tok(#[trigger] b[2][j]));
    assert(forall|j: int| 0 <= j < b[3].len() ==> clean_tok(#[trigger] b[3][j]));
    assert(forall|j: int| 0 <= j < b[4].len() ==> clean_tok(#[trigger] b[4][j]));
    assert(forall|j: int| 0 <= j < b[5].len() ==> clean_tok(#[trigger] b[5][j]));
    assert(forall|j: int| 0 <= j < b[6].len() ==> clean_tok(#[trigger] b[6][j]));
    assert(forall|j: int| 0 <= j < b[7].len() ==> clean_tok(#[trigger] b[7][j]));
    match rep.socket_errors {
        Some(se) => {
            lemma_dec_comma_token(se.0);
            lemma_dec_comma_token(se.1);
            lemma_dec_comma_token(se.2);
            lemma_dec_token(se.3);
            assert(forall|j: int|
                0 <= j < socket_row(se).len() ==> clean_tok(#[trigger] socket_row(se)[j]));
        },
        None => {
        },
    }
    match rep.non_2xx_3xx {
        Some(n) => {
            lemma_dec_token(n);
            assert(forall|j: int|
                0 <= j < non_2xx_row(n).len() ==> clean_tok(#[trigger] non_2xx_row(n)[j]));
        },
        None => {
        },
    }
    assert forall|i: int, j: int|
        0 <= i < 8 && 0 <= j < b[i].len() implies clean_tok(#[trigger] b[i][j]) by {
        if i == 0 {
            assert(clean_tok(b[0][j]));
        } else if i == 1 {
            assert(clean_tok(b[1][j]));
        } else if i == 2 {
            assert(clean_tok(b[2][j]));
        } else if i == 3 {
            assert(clean_tok(b[3][j]));
        } else if i == 4 {
            assert(clean_tok(b[4][j]));
        } else if i == 5 {
            assert(clean_tok(b[5][j]));
        } else if i == 6 {
            assert(clean_tok(b[6][j]));
        } else {
            assert(clean_tok(b[7][j]));
        }
    }
    let tls = summary_token_lines(rep);
    assert forall|i: int, j: int|
        0 <= i < tls.len() && 0 <= j < tls[i].len() implies clean_tok(#[trigger] tls[i][j]) by {
        if i < 8 {
            assert(tls[i] == b[i]);
            assert(clean_tok(b[i][j]));
        }
    }
}

/// The report whose base rows have been read back, before the optional and
/// aggregate rows.
pub open spec fn mid_report(rep: ReportSpec) -> ReportSpec {
    ReportSpec {
        socket_errors: None,
        non_2xx_3xx: None,
        rps: Seq::empty(),
        tps: Seq::empty(),
        ..rep
    }
}

#[verifier::spinoff_prover]
proof fn lemma_fold_base(rep: ReportSpec, lines: Seq<Seq<char>>)
    requires
        well_formed_report(rep),
        lines.len() >= 8,
        forall|k: int|
            0 <= k < 8 ==> #[trigger] lines[k] == join_toks(base_rows(rep)[k]),
        forall|i: int, j: int|
            0 <= i < 8 && 0 <= j < base_rows(rep)[i].len() ==> clean_tok(
                #[trigger] base_rows(rep)[i][j],
            ),
    ensures
        fold_report(lines.take(8)) == mid_report(rep),
{
    let b = base_rows(rep);
    let f0 = empty_report();
    assert(fold_report(lines.take(0)) == f0) by {
        assert(lines.take(0) =~= Seq::<Seq<char>>::empty());
    }
    let f1 = ReportSpec { threads: rep.threads, connections: rep.connections, ..f0 };
    assert(fold_report(lines.take(1)) == f1) by {
        lemma_fold_step(lines, 0);
        assert(forall|j: int| 0 <= j < b[0].len() ==> clean_tok(#[trigger] b[0][j]));
        lemma_join_toks(b[0]);
        lemma_apply_threads(fold_report(lines.take(0)), rep.threads, rep.connections);
    }
    let f2 = ReportSpec { latency: rep.latency, ..f1 };
    assert(fold_report(lines.take(2)) == f2) by {
        lemma_fold_step(lines, 1);
        assert(forall|j: int| 0 <= j < b[1].len() ==> clean_tok(#[trigger] b[1][j]));
        lemma_join_toks(b[1]);
        lemma_apply_latency(fold_report(lines.take(1)), rep.latency);
    }
    let f3 = ReportSpec { req_sec: rep.req_sec, ..f2 };
    assert(fold_report(lines.take(3)) == f3) by {
        lemma_fold_step(lines, 2);
        assert(forall|j: int| 0 <= j < b[2].len() ==> clean_tok(#[trigger] b[2][j]));
        lemma_join_toks(b[2]);
        lemma_apply_req_sec(fold_report(lines.take(2)), rep.req_sec);
    }
    let f4 = ReportSpec { p50: rep.p50, ..f3 };
    assert(fold_report(lines.take(4)) == f4) by {
        lemma_fold_step(lines, 3);
        assert(forall|j: int| 0 <= j < b[3].len() ==> clean_tok(#[trigger] b[3][j]));
        lemma_join_toks(b[3]);
        lemma_apply_p50(fold_report(lines.take(3)), rep.p50);
    }
    let f5 = ReportSpec { p75: rep.p75, ..f4 };
    assert(fold_report(lines.take(5)) == f5) by {
        lemma_fold_step(lines, 4);
        assert(forall|j: int| 0 <= j < b[4].len() ==> clean_tok(#[trigger] b[4][j]));
        lemma_join_toks(b[4]);
        lemma_apply_p75(fold_report(lines.take(4)), rep.p75);
    }
    let f6 = ReportSpec { p90: rep.p90, ..f5 };
    assert(fold_report(lines.take(6)) == f6) by {
        lemma_fold_step(lines, 5);
        assert(forall|j: int| 0 <= j < b[5].len() ==> clean_tok(#[trigger] b[5][j]));
        lemma_join_toks(b[5]);
        lemma_apply_p90(fold_report(lines.take(5)), rep.p90);
    }
    let f7 = ReportSpec { p99: rep.p99, ..f6 };
    assert(fold_report(lines.take(7)) == f7) by {
        lemma_fold_step(lines, 6);
        assert(forall|j: int| 0 <= j < b[6].len() ==> clean_tok(#[trigger] b[6][j]));
        lemma_join_toks(b[6]);
        lemma_apply_p99(fold_report(lines.take(6)), rep.p99);
    }
    let f8 = ReportSpec {
        total_requests: rep.total_requests,
        duration_ms: rep.duration_ms,
        data_read: rep.data_read,
        ..f7
    };
    assert(fold_report(lines.take(8)) == f8) by {
        lemma_fold_step(lines, 7);
        assert(forall|j: int| 0 <= j < b[7].len() ==> clean_tok(#[trigger] b[7][j]));
        lemma_join_toks(b[7]);
        lemma_apply_totals(
            fold_report(lines.take(7)),
            rep.total_requests,
            rep.duration_ms,
            rep.data_read,
        );
    }
    assert(f8 == mid_report(rep));
}

/// Parsing a full, well-formed transcript rendered from a report yields the
/// report back: every field of the rendered summary reads in with the value
/// the report held, including the optional socket-error and non-2xx rows.
#[verifier::spinoff_prover]
#[verifier::rlimit(60)]
pub proof fn lemma_summary_round_trip(rep: ReportSpec)
    requires
        well_formed_report(rep),
    ensures
        fold_report(spec_lines(spec_render(rep))) == rep,
{
    lemma_rows_clean(rep);
    let tls = summary_token_lines(rep);
    lemma_render_lines(tls);
    let lines = spec_lines(spec_render(rep));
    let b = base_rows(rep);
    assert(forall|k: int| 0 <= k < 8 ==> #[trigger] lines[k] == join_toks(b[k])) by {
        assert(forall|k: int| 0 <= k < 8 ==> #[trigger] tls[k] == b[k]);
    }
    lemma_fold_base(rep, lines);
    let m = mid_report(rep);
    let n = tls.len() as int;
    let r_rps = seq!["Requests/sec:"@, rep.rps];
    let r_tps = seq!["Transfer/sec:"@, rep.tps];
    assert(tls[n - 2] == r_rps && tls[n - 1] == r_tps);
    match (rep.socket_errors, rep.non_2xx_3xx) {
        (Some(se), Some(nn)) => {
            assert(n == 12);
            assert(tls[8] == socket_row(se) && tls[9] == non_2xx_row(nn));
            let f9 = ReportSpec { socket_errors: Some(se), ..m };
            assert(fold_report(lines.take(9)) == f9) by {
                lemma_fold_step(lines, 8);
                lemma_join_toks(socket_row(se));
                lemma_apply_socket(fold_report(lines.take(8)), se);
            }
            let f10 = ReportSpec { non_2xx_3xx: Some(nn), ..f9 };
            assert(fold_report(lines.take(10)) == f10) by {
                lemma_fold_step(lines, 9);
                lemma_join_toks(non_2xx_row(nn));
                lemma_apply_non_2xx(fold_report(lines.take(9)), nn);
            }
            let f11 = ReportSpec { rps: rep.rps, ..f10 };
            assert(fold_report(lines.take(11)) == f11) by {
                lemma_fold_step(lines, 10);
                lemma_join_toks(r_rps);
                lemma_apply_rps(fold_report(lines.take(10)), rep.rps);
            }
            let f12 = ReportSpec { tps: rep.tps, ..f11 };
            assert(fold_report(lines.take(12)) == f12) by {
                lemma_fold_step(lines, 11);
                lemma_join_toks(r_tps);
                lemma_apply_tps(fold_report(lines.take(11)), rep.tps);
            }
            assert(lines.take(12) =~= lines);
            assert(f12 == rep);
        },
        (Some(se), None) => {
            assert(n == 11);
            assert(tls[8] == socket_row(se));
            let f9 = ReportSpec { socket_errors: Some(se), ..m };
            assert(fold_report(lines.take(9)) == f9) by {
                lemma_fold_step(lines, 8);
                lemma_join_toks(socket_row(se));
                lemma_apply_socket(fold_report(lines.take(8)), se);
            }
            let f10 = ReportSpec { rps: rep.rps, ..f9 };
            assert(fold_report(lines.take(10)) == f10) by {
                lemma_fold_step(lines, 9);
                lemma_join_toks(r_rps);
                lemma_apply_rps(fold_report(lines.take(9)), rep.rps);
            }
            let f11 = ReportSpec { tps: rep.tps, ..f10 };
            assert(fold_report(lines.take(11)) == f11) by {
                lemma_fold_step(lines, 10);
                lemma_join_toks(r_tps);
                lemma_apply_tps(fold_report(lines.take(10)), rep.tps);
            }
            assert(lines.take(11) =~= lines);
            assert(f11 == rep);
        },
        (None, Some(nn)) => {
            assert(n == 11);
            assert(tls[8] == non_2xx_row(nn));
            let f9 = ReportSpec { non_2xx_3xx: Some(nn), ..m };
            assert(fold_report(lines.take(9)) == f9) by {
                lemma_fold_step(lines, 8);
                lemma_join_toks(non_2xx_row(nn));
                lemma_apply_non_2xx(fold_report(lines.take(8)), nn);
            }
            let f10 = ReportSpec { rps: rep.rps, ..f9 };
            assert(fold_report(lines.take(10)) == f10) by {
                lemma_fold_step(lines, 9);
                lemma_join_toks(r_rps);
                lemma_apply_rps(fold_report(lines.take(9)), rep.rps);
            }
            let f11 = ReportSpec { tps: rep.tps, ..f10 };
            assert(fold_report(lines.take(11)) == f11) by {
                lemma_fold_step(lines, 10);
                lemma_join_toks(r_tps);
                lemma_apply_tps(fold_report(lines.take(10)), rep.tps);
            }
            assert(lines.take(11) =~= lines);
            assert(f11 == rep);
        },
        (None, None) => {
            assert(n == 10);
            let f9 = ReportSpec { rps: rep.rps, ..m };
            assert(fold_report(lines.take(9)) == f9) by {
                lemma_fold_step(lines, 8);
                lemma_join_toks(r_rps);
                lemma_apply_rps(fold_report(lines.take(8)), rep.rps);
            }
            let f10 = ReportSpec { tps: rep.tps, ..f9 };
            assert(fold_report(lines.take(10)) == f10) by {
                lemma_fold_step(lines, 9);
                lemma_join_toks(r_tps);
                lemma_apply_tps(fold_report(lines.take(9)), rep.tps);
            }
            assert(lines.take(10) =~= lines);
            assert(f10 == rep);
        },
    }
}

fn push_sp_tok(s: &mut String, t: &str)
    ensures
        final(s)@ == old(s)@ + seq![' '] + t@,
{
    s.append(" ");
    s.append(t);
    proof {
        reveal_strlit(" ");
        assert(final(s)@ =~= old(s)@ + seq![' '] + t@);
    }
}

fn push_nl(s: &mut String)
    ensures
        final(s)@ == old(s)@ + seq!['\n'],
{
    s.append("\n");
    proof {
        reveal_strlit("\n");
        assert(final(s)@ =~= old(s)@ + seq!['\n']);
    }
}

proof fn lemma_join_two(a: Seq<char>, b: Seq<char>)
    ensures
        join_toks(seq![a, b]) == a + seq![' '] + b,
{
    assert(seq![a, b].drop_first() =~= seq![b]);
    assert(join_toks(seq![b]) == b);
}

proof fn lemma_join_five(a: Seq<char>, b: Seq<char>, c: Seq<char>, d: Seq<char>, e: Seq<char>)
    ensures
        join_toks(seq![a, b, c, d, e]) == a + seq![' '] + (b + seq![' '] + (c + seq![' '] + (d
            + seq![' '] + e))),
{
    assert(seq![a, b, c, d, e].drop_first() =~= seq![b, c, d, e]);
    assert(seq![b, c, d, e].drop_first() =~= seq![c, d, e]);
    assert(seq![c, d, e].drop_first() =~= seq![d, e]);
    assert(seq![d, e].drop_first() =~= seq![e]);
    assert(join_toks(seq![e]) == e);
    assert(join_toks(seq![d, e]) == d + seq![' '] + e);
    assert(join_toks(seq![c, d, e]) == c + seq![' '] + (d + seq![' '] + e));
    assert(join_toks(seq![b, c, d, e]) == b + seq![' '] + (c + seq![' '] + (d + seq![' ']
        + e)));
}

proof fn lemma_join_six(
    a: Seq<char>,
    b: Seq<char>,
    c: Seq<char>,
    d: Seq<char>,
    e: Seq<char>,
    f: Seq<char>,
)
    ensures
        join_toks(seq![a, b, c, d, e, f]) == a + seq![' '] + (b + seq![' '] + (c + seq![' '] + (
        d + seq![' '] + (e + seq![' '] + f)))),
{
    assert(seq![a, b, c, d, e, f].drop_first() =~= seq![b, c, d, e, f]);
    lemma_join_five(b, c, d, e, f);
    assert(join_toks(seq![b, c, d, e, f]) == b + seq![' '] + (c + seq![' '] + (d + seq![' ']
        + (e + seq![' '] + f))));
}

proof fn lemma_join_ten(
    a: Seq<char>,
    b: Seq<char>,
    c: Seq<char>,
    d: Seq<char>,
    e: Seq<char>,
    f: Seq<char>,
    g: Seq<char>,
    h: Seq<char>,
    i: Seq<char>,
    j: Seq<char>,
)
    ensures
        join_toks(seq![a, b, c, d, e, f, g, h, i, j]) == a + seq![' '] + (b + seq![' '] + (c
            + seq![' '] + (d + seq![' '] + (e + seq![' '] + (f + seq![' '] + (g + seq![' '] + (
        h + seq![' '] + (i + seq![' '] + j)))))))),
{
    assert(seq![a, b, c, d, e, f, g, h, i, j].drop_first() =~= seq![b, c, d, e, f, g, h, i, j]);
    assert(seq![b, c, d, e, f, g, h, i, j].drop_first() =~= seq![c, d, e, f, g, h, i, j]);
    assert(seq![c, d, e, f, g, h, i, j].drop_first() =~= seq![d, e, f, g, h, i, j]);
    assert(seq![d, e, f, g, h, i, j].drop_first() =~= seq![e, f, g, h, i, j]);
    lemma_join_six(e, f, g, h, i, j);
    assert(join_toks(seq![e, f, g, h, i, j]) == e + seq![' '] + (f + seq![' '] + (g
        + seq![' '] + (h + seq![' '] + (i + seq![' '] + j)))));
    assert(join_toks(seq![d, e, f, g, h, i, j]) == d + seq![' '] + (e + seq![' '] + (f
        + seq![' '] + (g + seq![' '] + (h + seq![' '] + (i + seq![' '] + j))))));
    assert(join_toks(seq![c, d, e, f, g, h, i, j]) == c + seq![' '] + (d + seq![' '] + (e
        + seq![' '] + (f + seq![' '] + (g + seq![' '] + (h + seq![' '] + (i + seq![' ']
        + j)))))));
    assert(join_toks(seq![b, c, d, e, f, g, h, i, j]) == b + seq![' '] + (c + seq![' '] + (d
        + seq![' '] + (e + seq![' '] + (f + seq![' '] + (g + seq![' '] + (h + seq![' '] + (i
        + seq![' '] + j))))))));
}

proof fn lemma_render_snoc(tls: Seq<Seq<Seq<char>>>, k: int)
    requires
        0 <= k < tls.len(),
    ensures
        render_lines(tls.take(k + 1)) == render_lines(tls.take(k)) + (join_toks(tls[k])
            + seq!['\n']),
{
    assert(tls.take(k + 1).drop_last() =~= tls.take(k));
    assert(tls.take(k + 1).last() == tls[k]);
}

fn append_two_row(s: &mut String, head: &str, v: &str)
    ensures
        final(s)@ == old(s)@ + (join_toks(seq![head@, v@]) + seq!['\n']),
{
    s.append(head);
    push_sp_tok(s, v);
    push_nl(s);
    proof {
        lemma_join_two(head@, v@);
        assert(final(s)@ =~= old(s)@ + (join_toks(seq![head@, v@]) + seq!['\n']));
    }
}

fn append_five_row(s: &mut String, head: &str, a: &str, b: &str, c: &str, d: &str)
    ensures
        final(s)@ == old(s)@ + (join_toks(seq![head@, a@, b@, c@, d@]) + seq!['\n']),
{
    s.append(head);
    push_sp_tok(s, a);
    push_sp_tok(s, b);
    push_sp_tok(s, c);
    push_sp_tok(s, d);
    push_nl(s);
    proof {
        lemma_join_five(head@, a@, b@, c@, d@);
        assert(final(s)@ =~= old(s)@ + (join_toks(seq![head@, a@, b@, c@, d@]) + seq!['\n']));
    }
}

fn append_threads_row(s: &mut String, threads: u32, connections: u32)
    ensures
        final(s)@ == old(s)@ + (join_toks(
            seq![
                dec_digits(threads as nat),
                "threads"@,
                "and"@,
                dec_digits(connections as nat),
                "connections"@,
            ],
        ) + seq!['\n']),
{
    let t = u64_to_dec(threads as u64);
    let c = u64_to_dec(connections as u64);
    s.append(t.as_str());
    push_sp_tok(s, "threads");
    push_sp_tok(s, "and");
    push_sp_tok(s, c.as_str());
    push_sp_tok(s, "connections");
    push_nl(s);
    proof {
        lemma_join_five(
            dec_digits(threads as nat),
            "threads"@,
            "and"@,
            dec_digits(connections as nat),
            "connections"@,
        );
        assert(final(s)@ =~= old(s)@ + (join_toks(
            seq![
                dec_digits(threads as nat),
                "threads"@,
                "and"@,
                dec_digits(connections as nat),
                "connections"@,
            ],
        ) + seq!['\n']));
    }
}

fn append_totals_row(s: &mut String, total_requests: u32, duration_ms: u64, data_read: &str)
    requires
        duration_ms < 1_000_000_000_000u64,
    ensures
        final(s)@ == old(s)@ + (join_toks(
            seq![
                dec_digits(total_requests as nat),
                "requests"@,
                "in"@,
                duration_token(duration_ms),
                data_read@,
                "read"@,
            ],
        ) + seq!['\n']),
{
    let mut dur = u64_to_dec(duration_ms / 1000);
    dur.append(".");
    let frac = crate::text::u64_to_dec3(duration_ms % 1000);
    dur.append(frac.as_str());
    dur.append("s,");
    proof {
        reveal_strlit(".");
        reveal_strlit("s,");
        assert("s,"@ =~= seq!['s', ',']);
        assert("."@ =~= seq!['.']);
        assert(dur@ =~= duration_token(duration_ms));
    }
    let tr = u64_to_dec(total_requests as u64);
    s.append(tr.as_str());
    push_sp_tok(s, "requests");
    push_sp_tok(s, "in");
    push_sp_tok(s, dur.as_str());
    push_sp_tok(s, data_read);
    push_sp_tok(s, "read");
    push_nl(s);
    proof {
        lemma_join_six(
            dec_digits(total_requests as nat),
            "requests"@,
            "in"@,
            duration_token(duration_ms),
            data_read@,
            "read"@,
        );
        assert(final(s)@ =~= old(s)@ + (join_toks(
            seq![
                dec_digits(total_requests as nat),
                "requests"@,
                "in"@,
                duration_token(duration_ms),
                data_read@,
                "read"@,
            ],
        ) + seq!['\n']));
    }
}

#[verifier::rlimit(60)]
fn append_socket_row(s: &mut String, se: &SocketErrors)
    ensures
        final(s)@ == old(s)@ + (join_toks(
            socket_row((se.connect, se.read, se.write, se.timeout)),
        ) + seq!['\n']),
{
    let mut c0 = u64_to_dec(se.connect as u64);
    c0.append(",");
    let mut c1 = u64_to_dec(se.read as u64);
    c1.append(",");
    let mut c2 = u64_to_dec(se.write as u64);
    c2.append(",");
    let c3 = u64_to_dec(se.timeout as u64);
    proof {
        reveal_strlit(",");
        assert(","@ =~= seq![',']);
        assert(c0@ =~= dec_digits(se.connect as nat).push(','));
        assert(c1@ =~= dec_digits(se.read as nat).push(','));
        assert(c2@ =~= dec_digits(se.write as nat).push(','));
    }
    s.append("Socket");
    push_sp_tok(s, "errors:");
    push_sp_tok(s, "connect");
    push_sp_tok(s, c0.as_str());
    push_sp_tok(s, "read");
    push_sp_tok(s, c1.as_str());
    push_sp_tok(s, "write");
    push_sp_tok(s, c2.as_str());
    push_sp_tok(s, "timeout");
    push_sp_tok(s, c3.as_str());
    push_nl(s);
    proof {
        lemma_join_ten(
            "Socket"@,
            "errors:"@,
            "connect"@,
            dec_digits(se.connect as nat).push(','),
            "read"@,
            dec_digits(se.read as nat).push(','),
            "write"@,
            dec_digits(se.write as nat).push(','),
            "timeout"@,
            dec_digits(se.timeout as nat),
        );
        assert(final(s)@ =~= old(s)@ + (join_toks(
            socket_row((se.connect, se.read, se.write, se.timeout)),
        ) + seq!['\n']));
    }
}

fn append_non_2xx_row(s: &mut String, n: u32)
    ensures
        final(s)@ == old(s)@ + (join_toks(non_2xx_row(n)) + seq!['\n']),
{
    let nn = u64_to_dec(n as u64);
    s.append("Non-2xx");
    push_sp_tok(s, "or");
    push_sp_tok(s, "3xx");
    push_sp_tok(s, "responses:");
    push_sp_tok(s, nn.as_str());
    push_nl(s);
    proof {
        lemma_join_five("Non-2xx"@, "or"@, "3xx"@, "responses:"@, dec_digits(n as nat));
        assert(final(s)@ =~= old(s)@ + (join_toks(non_2xx_row(n)) + seq!['\n']));
    }
}

impl BenchmarkResults {
    /// Renders the parsed record back into the canonical report shape, one
    /// pattern per line; absent socket-error and non-2xx rows are omitted.
    #[verifier::spinoff_prover]
    pub fn format_summary(&self) -> (r: String)
        requires
            self.duration_ms < 1_000_000_000_000u64,
        ensures
            r@ == spec_render(report_of(*self)),
    {
        let ghost rep = report_of(*self);
        let ghost tls = summary_token_lines(rep);
        let mut s = String::new();
        proof {
            assert(tls.take(0) =~= Seq::<Seq<Seq<char>>>::empty());
            assert(s@ =~= render_lines(tls.take(0)));
        }
        append_threads_row(&mut s, self.threads, self.connections);
        proof {
            lemma_render_snoc(tls, 0);
            assert(s@ == render_lines(tls.take(1)));
        }
        append_five_row(
            &mut s,
            "Latency",
            self.thread_stats.latency.average.as_str(),
            self.thread_stats.latency.standard_deviation.as_str(),
            self.thread_stats.latency.max.as_str(),
            self.thread_stats.latency.plus_minus_std_dev.as_str(),
        );
        proof {
            lemma_render_snoc(tls, 1);
            assert(s@ == render_lines(tls.take(2)));
        }
        append_five_row(
            &mut s,
            "Req/Sec",
            self.thread_stats.requests_per_second.average.as_str(),
            self.thread_stats.requests_per_second.standard_deviation.as_str(),
            self.thread_stats.requests_per_second.max.as_str(),
            self.thread_stats.requests_per_second.plus_minus_std_dev.as_str(),
        );
        proof {
            lemma_render_snoc(tls, 2);
            assert(s@ == render_lines(tls.take(3)));
        }
        append_two_row(&mut s, "50%", self.latency_distribution.percentile_50.as_str());
        proof {
            lemma_render_snoc(tls, 3);
            assert(s@ == render_lines(tls.take(4)));
        }
        append_two_row(&mut s, "75%", self.latency_distribution.percentile_75.as_str());
        proof {
            lemma_render_snoc(tls, 4);
            assert(s@ == render_lines(tls.take(5)));
        }
        append_two_row(&mut s, "90%", self.latency_distribution.percentile_90.as_str());
        proof {
            lemma_render_snoc(tls, 5);
            assert(s@ == render_lines(tls.take(6)));
        }
        append_two_row(&mut s, "99%", self.latency_distribution.percentile_99.as_str());
        proof {
            lemma_render_snoc(tls, 6);
            assert(s@ == render_lines(tls.take(7)));
        }
        append_totals_row(&mut s, self.total_requests, self.duration_ms, self.data_read.as_str());
        proof {
            lemma_render_snoc(tls, 7);
            assert(s@ == render_lines(tls.take(8)));
        }
        let ghost mut k: int = 8;
        match &self.socket_errors {
            Some(se) => {
                append_socket_row(&mut s, se);
                proof {
                    assert(tls[8] == socket_row((se.connect, se.read, se.write, se.timeout)));
                    lemma_render_snoc(tls, 8);
                    assert(s@ == render_lines(tls.take(9)));
                    k = 9;
                }
            },
            None => {
            },
        }
        match self.non_2xx_3xx {
            Some(n) => {
                append_non_2xx_row(&mut s, n);
                proof {
                    assert(tls[k] == non_2xx_row(n));
                    lemma_render_snoc(tls, k);
                    assert(s@ == render_lines(tls.take(k + 1)));
                    k = k + 1;
                }
            },
            None => {
            },
        }
        append_two_row(&mut s, "Requests/sec:", self.requests_per_second.as_str());
        proof {
            assert(tls[k] == seq!["Requests/sec:"@, rep.rps]);
            lemma_render_snoc(tls, k);
            assert(s@ == render_lines(tls.take(k + 1)));
            k = k + 1;
        }
        append_two_row(&mut s, "Transfer/sec:", self.transfer_per_second.as_str());
        proof {
            assert(tls[k] == seq!["Transfer/sec:"@, rep.tps]);
            lemma_render_snoc(tls, k);
            assert(s@ == render_lines(tls.take(k + 1)));
            assert(tls.take(k + 1) =~= tls);
        }
        s
    }
}

} // verus!
