//! Verified text utilities shared by the listeners and the load-generator
//! report parser: whitespace tokenization, line splitting, and decimal
//! digit handling, all specified over `Seq<char>` views.

use vstd::prelude::*;
use vstd::string::StringSliceAdditionalSpecFns;

verus! {

/// Relies on `str::from_utf8`: it returns `Ok` exactly when the bytes are
/// valid UTF-8, and the returned slice is those very bytes.
#[verifier::external_body]
pub(crate) fn utf8_str(data: &[u8]) -> (r: Option<&str>)
    ensures
        r is Some <==> vstd::utf8::valid_utf8(data@),
        r matches Some(s) ==> s.spec_bytes() == data@,
{
    std::str::from_utf8(data).ok()
}

/// Whitespace for tokenization and blank-line purposes: blanks and tabs.
/// Deliberately narrower than Unicode whitespace — line endings are the line
/// splitter's business, and the streams read here (Docker's JSON lines and
/// the load generator's report) use no other whitespace.
pub open spec fn is_space_char(c: char) -> bool {
    c == ' ' || c == '\t'
}

pub open spec fn is_digit_char(c: char) -> bool {
    ('0' as u32) <= (c as u32) && (c as u32) <= ('9' as u32)
}

pub open spec fn digit_val(c: char) -> nat {
    ((c as u32) - ('0' as u32)) as nat
}

/// Every character is a decimal digit and there is at least one.
pub open spec fn all_digits(s: Seq<char>) -> bool {
    s.len() > 0 && forall|i: int| 0 <= i < s.len() ==> is_digit_char(#[trigger] s[i])
}

/// The value of a digit string, most significant digit first.
pub open spec fn dec_val(s: Seq<char>) -> nat
    decreases s.len(),
{
    if s.len() == 0 {
        0
    } else {
        dec_val(s.drop_last()) * 10 + digit_val(s.last())
    }
}

pub open spec fn pow10(n: nat) -> nat
    decreases n,
{
    if n == 0 {
        1
    } else {
        10 * pow10((n - 1) as nat)
    }
}

pub proof fn lemma_dec_val_bound(s: Seq<char>)
    requires
        forall|i: int| 0 <= i < s.len() ==> is_digit_char(#[trigger] s[i]),
    ensures
        dec_val(s) < pow10(s.len() as nat),
    decreases s.len(),
{
    if s.len() > 0 {
        lemma_dec_val_bound(s.drop_last());
    }
}

/// Character-exact string comparison.
pub fn str_eq(a: &str, b: &str) -> (r: bool)
    ensures
        r <==> a@ == b@,
{
    let a_len = a.unicode_len();
    let b_len = b.unicode_len();
    if a_len != b_len {
        assert(a@ != b@) by {
            assert(a@.len() != b@.len());
        }
        return false;
    }
    let mut i: usize = 0;
    while i < a_len
        invariant
            a_len == a@.len(),
            b_len == b@.len(),
            a_len == b_len,
            0 <= i <= a_len,
            forall|j: int| 0 <= j < i ==> a@[j] == b@[j],
        decreases a_len - i,
    {
        if a.get_char(i) != b.get_char(i) {
            return false;
        }
        i = i + 1;
    }
    proof {
        assert(a@ =~= b@);
    }
    true
}

/// Nothing but whitespace.
pub open spec fn spec_blank(s: Seq<char>) -> bool {
    forall|i: int| 0 <= i < s.len() ==> is_space_char(#[trigger] s[i])
}

/// True iff the string holds nothing but whitespace (the usual
/// "skip lines that trim to empty" test).
pub fn is_blank(s: &str) -> (r: bool)
    ensures
        r == spec_blank(s@),
{
    let len = s.unicode_len();
    let mut i: usize = 0;
    while i < len
        invariant
            len == s@.len(),
            0 <= i <= len,
            forall|j: int| 0 <= j < i ==> is_space_char(#[trigger] s@[j]),
        decreases len - i,
    {
        let c = s.get_char(i);
        if !(c == ' ' || c == '\t') {
            return false;
        }
        i = i + 1;
    }
    true
}

/// The string without its trailing whitespace.
pub open spec fn spec_trim_end(s: Seq<char>) -> Seq<char>
    decreases s.len(),
{
    if s.len() > 0 && is_space_char(s.last()) {
        spec_trim_end(s.drop_last())
    } else {
        s
    }
}

pub fn trim_end(s: &str) -> (r: String)
    ensures
        r@ == spec_trim_end(s@),
{
    let len = s.unicode_len();
    let mut end: usize = len;
    let mut done = false;
    proof {
        assert(s@.take(len as int) =~= s@);
    }
    while !done && end > 0
        invariant
            len == s@.len(),
            0 <= end <= len,
            spec_trim_end(s@) == spec_trim_end(s@.take(end as int)),
            done ==> spec_trim_end(s@.take(end as int)) == s@.take(end as int),
        decreases end - if done { 1int } else { 0int },
    {
        let c = s.get_char(end - 1);
        proof {
            assert(s@.take(end as int).last() == s@[end - 1]);
        }
        if c == ' ' || c == '\t' {
            proof {
                assert(s@.take(end as int).drop_last() =~= s@.take(end - 1));
            }
            end = end - 1;
        } else {
            done = true;
        }
    }
    let picked = s.substring_char(0, end);
    proof {
        if end == 0 {
            assert(s@.take(0) =~= Seq::<char>::empty());
        }
        assert(picked@ =~= s@.take(end as int));
    }
    String::from_str(picked)
}

/// What `str::to_lowercase` returns: a function of the characters alone.
pub uninterp spec fn lower_of(s: Seq<char>) -> Seq<char>;

/// Relies on `str::to_lowercase`: the result depends on the characters
/// alone, and an empty string stays empty.
#[verifier::external_body]
pub(crate) fn lowercase(s: &str) -> (r: String)
    ensures
        r@ == lower_of(s@),
        s@.len() == 0 ==> r@.len() == 0,
{
    s.to_lowercase()
}

/// Index of the first occurrence of `c`, or the length if there is none.
pub open spec fn until_char(s: Seq<char>, c: char) -> nat
    decreases s.len(),
{
    if s.len() == 0 || s[0] == c {
        0
    } else {
        1 + until_char(s.drop_first(), c)
    }
}

proof fn lemma_until_char_exact(s: Seq<char>, c: char, k: int)
    requires
        0 <= k <= s.len(),
        forall|j: int| 0 <= j < k ==> s[j] != c,
        k < s.len() ==> s[k] == c,
    ensures
        until_char(s, c) == k,
    decreases k,
{
    if k > 0 {
        assert(forall|j: int| 0 <= j < k - 1 ==> s.drop_first()[j] == s[j + 1]);
        if k < s.len() {
            assert(s.drop_first()[k - 1] == s[k]);
        }
        lemma_until_char_exact(s.drop_first(), c, k - 1);
    }
}

/// The part of the string before the first occurrence of `c`; the whole
/// string if `c` does not occur.
pub fn prefix_before(s: &str, c: char) -> (r: String)
    ensures
        r@ == s@.take(until_char(s@, c) as int),
{
    let len = s.unicode_len();
    let mut k: usize = 0;
    let mut found = false;
    while !found && k < len
        invariant
            len == s@.len(),
            0 <= k <= len,
            forall|j: int| 0 <= j < k ==> s@[j] != c,
            found ==> k < len && s@[k as int] == c,
        decreases len - k - if found {
            1int
        } else {
            0int
        },
    {
        if s.get_char(k) == c {
            found = true;
        } else {
            k = k + 1;
        }
    }
    proof {
        lemma_until_char_exact(s@, c, k as int);
    }
    let picked = s.substring_char(0, k);
    proof {
        assert(picked@ =~= s@.take(k as int));
    }
    String::from_str(picked)
}

/// What log output is trimmed of at the right edge: whitespace and line
/// endings.
pub open spec fn is_log_trim_char(c: char) -> bool {
    c == ' ' || c == '\t' || c == '\r' || c == '\n'
}

/// The string without trailing whitespace or line endings.
pub open spec fn spec_trim_log(s: Seq<char>) -> Seq<char>
    decreases s.len(),
{
    if s.len() > 0 && is_log_trim_char(s.last()) {
        spec_trim_log(s.drop_last())
    } else {
        s
    }
}

pub fn trim_log(s: &str) -> (r: String)
    ensures
        r@ == spec_trim_log(s@),
{
    let len = s.unicode_len();
    let mut end: usize = len;
    let mut done = false;
    proof {
        assert(s@.take(len as int) =~= s@);
    }
    while !done && end > 0
        invariant
            len == s@.len(),
            0 <= end <= len,
            spec_trim_log(s@) == spec_trim_log(s@.take(end as int)),
            done ==> spec_trim_log(s@.take(end as int)) == s@.take(end as int),
        decreases end - if done {
            1int
        } else {
            0int
        },
    {
        let c = s.get_char(end - 1);
        proof {
            assert(s@.take(end as int).last() == s@[end - 1]);
        }
        if c == ' ' || c == '\t' || c == '\r' || c == '\n' {
            proof {
                assert(s@.take(end as int).drop_last() =~= s@.take(end - 1));
            }
            end = end - 1;
        } else {
            done = true;
        }
    }
    let picked = s.substring_char(0, end);
    proof {
        if end == 0 {
            assert(s@.take(0) =~= Seq::<char>::empty());
        }
        assert(picked@ =~= s@.take(end as int));
    }
    String::from_str(picked)
}

/// Accumulator form of whitespace tokenization: `cur` is the token being
/// built; a finished non-empty token is emitted when whitespace or the end of
/// the input is reached.
pub open spec fn tokens_acc(s: Seq<char>, cur: Seq<char>) -> Seq<Seq<char>>
    decreases s.len(),
{
    if s.len() == 0 {
        if cur.len() > 0 {
            seq![cur]
        } else {
            Seq::empty()
        }
    } else if is_space_char(s[0]) {
        (if cur.len() > 0 {
            seq![cur]
        } else {
            Seq::empty()
        }) + tokens_acc(s.drop_first(), Seq::empty())
    } else {
        tokens_acc(s.drop_first(), cur.push(s[0]))
    }
}

/// The whitespace-separated tokens of a line, in order, without empties.
pub open spec fn spec_tokens(s: Seq<char>) -> Seq<Seq<char>> {
    tokens_acc(s, Seq::empty())
}

pub fn tokens_of(line: &str) -> (r: Vec<String>)
    ensures
        r.deep_view() == spec_tokens(line@),
{
    let len = line.unicode_len();
    let mut r: Vec<String> = Vec::new();
    let mut start: usize = 0;
    let mut i: usize = 0;
    proof {
        assert(line@.skip(0) =~= line@);
        assert(line@.subrange(0, 0) =~= Seq::<char>::empty());
    }
    while i < len
        invariant
            len == line@.len(),
            0 <= start <= i <= len,
            spec_tokens(line@) == r.deep_view() + tokens_acc(
                line@.skip(i as int),
                line@.subrange(start as int, i as int),
            ),
        decreases len - i,
    {
        let c = line.get_char(i);
        proof {
            assert(line@.skip(i as int)[0] == line@[i as int]);
            assert(line@.skip(i as int).drop_first() =~= line@.skip(i as int + 1));
        }
        if c == ' ' || c == '\t' {
            if i > start {
                let tok = line.substring_char(start, i);
                let ghost old_r = r.deep_view();
                r.push(String::from_str(tok));
                proof {
                    assert(r.deep_view() =~= old_r.push(line@.subrange(
                        start as int,
                        i as int,
                    )));
                }
            }
            proof {
                assert(line@.subrange(i as int + 1, i as int + 1)
                    =~= Seq::<char>::empty());
            }
            i = i + 1;
            start = i;
        } else {
            proof {
                assert(line@.subrange(start as int, i as int).push(line@[i as int])
                    =~= line@.subrange(start as int, i as int + 1));
            }
            i = i + 1;
        }
    }
    proof {
        assert(line@.skip(len as int) =~= Seq::<char>::empty());
    }
    if len > start {
        let tok = line.substring_char(start, len);
        let ghost old_r = r.deep_view();
        r.push(String::from_str(tok));
        proof {
            assert(r.deep_view() =~= old_r.push(line@.subrange(start as int, len as int)));
        }
    }
    r
}

/// Raw newline split, accumulator form: always yields at least one piece;
/// the last piece is the text after the final `'\n'` (possibly empty).
pub open spec fn pieces_acc(s: Seq<char>, cur: Seq<char>) -> Seq<Seq<char>>
    decreases s.len(),
{
    if s.len() == 0 {
        seq![cur]
    } else if s[0] == '\n' {
        seq![cur] + pieces_acc(s.drop_first(), Seq::empty())
    } else {
        pieces_acc(s.drop_first(), cur.push(s[0]))
    }
}

pub open spec fn raw_pieces(s: Seq<char>) -> Seq<Seq<char>> {
    pieces_acc(s, Seq::empty())
}

/// A line with one trailing carriage return removed.
pub open spec fn strip_cr(l: Seq<char>) -> Seq<char> {
    if l.len() > 0 && l.last() == '\r' {
        l.drop_last()
    } else {
        l
    }
}

/// The complete (newline-terminated) lines of a byte-stream buffer, carriage
/// returns stripped.
pub open spec fn complete_lines(s: Seq<char>) -> Seq<Seq<char>> {
    raw_pieces(s).drop_last().map_values(|l: Seq<char>| strip_cr(l))
}

/// What remains in the buffer after the last newline.
pub open spec fn tail_piece(s: Seq<char>) -> Seq<char> {
    raw_pieces(s).last()
}

/// The lines of a full text, as `str::lines` sees them: split on `'\n'`,
/// strip one trailing `'\r'` per line, and drop a final empty remainder.
pub open spec fn spec_lines(s: Seq<char>) -> Seq<Seq<char>> {
    if tail_piece(s).len() == 0 {
        complete_lines(s)
    } else {
        complete_lines(s).push(strip_cr(tail_piece(s)))
    }
}

pub proof fn lemma_pieces_acc_len(s: Seq<char>, cur: Seq<char>)
    ensures
        pieces_acc(s, cur).len() >= 1,
    decreases s.len(),
{
    if s.len() > 0 {
        if s[0] == '\n' {
            lemma_pieces_acc_len(s.drop_first(), Seq::empty());
        } else {
            lemma_pieces_acc_len(s.drop_first(), cur.push(s[0]));
        }
    }
}

/// Splits a whole transcript into lines; used once the stream has closed.
pub fn split_lines(s: &str) -> (r: Vec<String>)
    ensures
        r.deep_view() == spec_lines(s@),
{
    let (done, rest) = drain_pieces(s);
    let mut r = done;
    proof {
        lemma_pieces_acc_len(s@, Seq::<char>::empty());
    }
    if rest.as_str().unicode_len() > 0 {
        let last = strip_cr_exec(rest.as_str());
        let ghost old_r = r.deep_view();
        r.push(last);
        proof {
            assert(r.deep_view() =~= old_r.push(strip_cr(tail_piece(s@))));
        }
    }
    r
}

/// One trailing carriage return removed.
pub fn strip_cr_exec(l: &str) -> (r: String)
    ensures
        r@ == strip_cr(l@),
{
    let len = l.unicode_len();
    if len > 0 && l.get_char(len - 1) == '\r' {
        let cut = l.substring_char(0, len - 1);
        proof {
            assert(cut@ =~= l@.drop_last());
        }
        String::from_str(cut)
    } else {
        String::from_str(l)
    }
}

/// Splits off every complete line of `s`, returning them (carriage returns
/// stripped) together with the remainder after the last newline.
pub fn drain_pieces(s: &str) -> (r: (Vec<String>, String))
    ensures
        r.0.deep_view() == complete_lines(s@),
        r.1@ == tail_piece(s@),
{
    let len = s.unicode_len();
    let mut done: Vec<String> = Vec::new();
    let ghost mut raw_done: Seq<Seq<char>> = Seq::empty();
    let mut start: usize = 0;
    let mut i: usize = 0;
    proof {
        assert(s@.skip(0) =~= s@);
        assert(s@.subrange(0, 0) =~= Seq::<char>::empty());
    }
    while i < len
        invariant
            len == s@.len(),
            0 <= start <= i <= len,
            raw_pieces(s@) == raw_done + pieces_acc(
                s@.skip(i as int),
                s@.subrange(start as int, i as int),
            ),
            done.deep_view() == raw_done.map_values(|l: Seq<char>| strip_cr(l)),
        decreases len - i,
    {
        let c = s.get_char(i);
        proof {
            assert(s@.skip(i as int)[0] == s@[i as int]);
            assert(s@.skip(i as int).drop_first() =~= s@.skip(i as int + 1));
        }
        if c == '\n' {
            let piece = s.substring_char(start, i);
            proof {
                assert(piece@ =~= s@.subrange(start as int, i as int));
            }
            let line = strip_cr_exec(piece);
            let ghost old_done = done.deep_view();
            done.push(line);
            proof {
                raw_done = raw_done.push(s@.subrange(start as int, i as int));
                assert(done.deep_view() =~= old_done.push(strip_cr(s@.subrange(
                    start as int,
                    i as int,
                ))));
                assert(done.deep_view() =~= raw_done.map_values(
                    |l: Seq<char>| strip_cr(l),
                ));
            }
            i = i + 1;
            start = i;
            proof {
                assert(s@.subrange(start as int, start as int) =~= Seq::<char>::empty());
                assert(raw_pieces(s@) =~= raw_done + pieces_acc(
                    s@.skip(i as int),
                    s@.subrange(start as int, i as int),
                ));
            }
        } else {
            proof {
                assert(s@.subrange(start as int, i as int).push(s@[i as int])
                    =~= s@.subrange(start as int, i as int + 1));
            }
            i = i + 1;
        }
    }
    proof {
        assert(s@.skip(len as int) =~= Seq::<char>::empty());
        let cur = s@.subrange(start as int, len as int);
        assert(raw_pieces(s@) == raw_done + seq![cur]);
        assert((raw_done + seq![cur]).drop_last() =~= raw_done);
        assert((raw_done + seq![cur]).last() == cur);
    }
    let rest = s.substring_char(start, len);
    proof {
        assert(rest@ =~= s@.subrange(start as int, len as int));
    }
    (done, String::from_str(rest))
}

/// The unsigned value of a digit token. Tokens longer than 19 digits are not
/// given a value: every 19-digit number fits a `u64`, and nothing the load
/// generator prints comes close.
pub open spec fn tok_u64(t: Seq<char>) -> Option<u64> {
    if all_digits(t) && t.len() <= 19 {
        Some(dec_val(t) as u64)
    } else {
        None
    }
}

pub open spec fn tok_u32(t: Seq<char>) -> Option<u32> {
    match tok_u64(t) {
        Some(v) => if v <= u32::MAX {
            Some(v as u32)
        } else {
            None
        },
        None => None,
    }
}

pub proof fn lemma_pow10_19()
    ensures
        pow10(19) == 10_000_000_000_000_000_000,
        pow10(9) == 1_000_000_000,
{
    reveal_with_fuel(pow10, 20);
}

pub fn parse_u64_digits(t: &str) -> (r: Option<u64>)
    ensures
        r == tok_u64(t@),
{
    let len = t.unicode_len();
    if len == 0 || len > 19 {
        return None;
    }
    let mut v: u64 = 0;
    let mut i: usize = 0;
    proof {
        assert(t@.take(0) =~= Seq::<char>::empty());
    }
    while i < len
        invariant
            len == t@.len(),
            1 <= len <= 19,
            0 <= i <= len,
            forall|j: int| 0 <= j < i ==> is_digit_char(#[trigger] t@[j]),
            v == dec_val(t@.take(i as int)),
        decreases len - i,
    {
        let c = t.get_char(i);
        let cv = c as u32;
        if cv < 48 || cv > 57 {
            assert(!is_digit_char(t@[i as int]));
            return None;
        }
        let d = (cv - 48) as u64;
        proof {
            lemma_pow10_19();
            lemma_dec_val_bound(t@.take(i as int));
            lemma_pow10_mono(i as nat, 18);
            assert(t@.take(i as int + 1).drop_last() =~= t@.take(i as int));
            assert(t@.take(i as int + 1).last() == t@[i as int]);
        }
        v = v * 10 + d;
        i = i + 1;
    }
    proof {
        assert(t@.take(len as int) =~= t@);
        lemma_dec_val_bound(t@);
        lemma_pow10_19();
        lemma_pow10_mono(len as nat, 19);
    }
    Some(v)
}

pub proof fn lemma_pow10_mono(a: nat, b: nat)
    requires
        a <= b,
    ensures
        pow10(a) <= pow10(b),
    decreases b,
{
    if a < b {
        lemma_pow10_mono(a, (b - 1) as nat);
    }
}

pub fn parse_u32_digits(t: &str) -> (r: Option<u32>)
    ensures
        r == tok_u32(t@),
{
    match parse_u64_digits(t) {
        Some(v) => {
            if v <= 0xFFFF_FFFF {
                Some(v as u32)
            } else {
                None
            }
        },
        None => None,
    }
}

/// The decimal digit character for a value below ten.
pub open spec fn digit_char(d: nat) -> char {
    ((48 + d) as u8) as char
}

/// The decimal rendering of a number, most significant digit first, no
/// leading zeros.
pub open spec fn dec_digits(n: nat) -> Seq<char>
    decreases n,
{
    if n < 10 {
        seq![digit_char(n)]
    } else {
        dec_digits(n / 10).push(digit_char(n % 10))
    }
}

pub proof fn lemma_dec_digits_val(n: nat)
    ensures
        all_digits(dec_digits(n)),
        dec_val(dec_digits(n)) == n,
    decreases n,
{
    if n < 10 {
        assert(digit_val(digit_char(n)) == n);
        assert(dec_val(Seq::<char>::empty()) == 0);
        assert(dec_digits(n) =~= seq![digit_char(n)]);
        assert(dec_digits(n).drop_last() =~= Seq::<char>::empty());
        assert(dec_digits(n).last() == digit_char(n));
        assert(dec_val(dec_digits(n)) == dec_val(Seq::<char>::empty()) * 10 + digit_val(
            digit_char(n),
        ));
    } else {
        lemma_dec_digits_val(n / 10);
        assert(digit_val(digit_char(n % 10)) == n % 10);
        assert(dec_digits(n).drop_last() =~= dec_digits(n / 10));
        assert(dec_digits(n).last() == digit_char(n % 10));
        assert(dec_val(dec_digits(n)) == dec_val(dec_digits(n / 10)) * 10 + digit_val(
            digit_char(n % 10),
        ));
        assert((n / 10) * 10 + n % 10 == n);
    }
}

pub proof fn lemma_dec_digits_len(n: nat, k: nat)
    requires
        1 <= k,
        n < pow10(k),
    ensures
        dec_digits(n).len() <= k,
    decreases n,
{
    if n >= 10 {
        assert(pow10(k) == 10 * pow10((k - 1) as nat));
        assert(n / 10 < pow10((k - 1) as nat)) by (nonlinear_arith)
            requires
                n < 10 * pow10((k - 1) as nat),
                n >= 10,
        ;
        lemma_dec_digits_len(n / 10, (k - 1) as nat);
    }
}

fn append_digit(s: &mut String, d: u8)
    requires
        d < 10,
    ensures
        final(s)@ == old(s)@.push(digit_char(d as nat)),
{
    proof {
        reveal_strlit("0");
        reveal_strlit("1");
        reveal_strlit("2");
        reveal_strlit("3");
        reveal_strlit("4");
        reveal_strlit("5");
        reveal_strlit("6");
        reveal_strlit("7");
        reveal_strlit("8");
        reveal_strlit("9");
    }
    match d {
        0 => s.append("0"),
        1 => s.append("1"),
        2 => s.append("2"),
        3 => s.append("3"),
        4 => s.append("4"),
        5 => s.append("5"),
        6 => s.append("6"),
        7 => s.append("7"),
        8 => s.append("8"),
        _ => s.append("9"),
    }
    proof {
        assert(final(s)@ =~= old(s)@.push(digit_char(d as nat)));
    }
}

/// Exactly three decimal digits, leading zeros kept: the rendering of a
/// thousandths part.
pub open spec fn dec3(n: nat) -> Seq<char> {
    seq![digit_char(n / 100), digit_char((n / 10) % 10), digit_char(n % 10)]
}

pub proof fn lemma_dec3(n: nat)
    requires
        n < 1000,
    ensures
        all_digits(dec3(n)),
        dec3(n).len() == 3,
        dec_val(dec3(n)) == n,
{
    assert(dec_val(Seq::<char>::empty()) == 0);
    let s = dec3(n);
    let s1 = seq![digit_char(n / 100)];
    let s2 = s1.push(digit_char((n / 10) % 10));
    assert(digit_val(digit_char(n / 100)) == n / 100);
    assert(digit_val(digit_char((n / 10) % 10)) == (n / 10) % 10);
    assert(digit_val(digit_char(n % 10)) == n % 10);
    assert(s1.drop_last() =~= Seq::<char>::empty());
    assert(s1.last() == digit_char(n / 100));
    assert(dec_val(s1) == n / 100);
    assert(s2.drop_last() =~= s1);
    assert(s2.last() == digit_char((n / 10) % 10));
    assert(dec_val(s2) == (n / 100) * 10 + (n / 10) % 10);
    assert(s.drop_last() =~= s2);
    assert(s.last() == digit_char(n % 10));
    assert(dec_val(s) == ((n / 100) * 10 + (n / 10) % 10) * 10 + n % 10);
    assert(((n / 100) * 10 + (n / 10) % 10) * 10 + n % 10 == n) by (nonlinear_arith)
        requires
            n < 1000,
    ;
}

/// Renders a thousandths part: three digits, leading zeros kept.
pub fn u64_to_dec3(n: u64) -> (r: String)
    requires
        n < 1000,
    ensures
        r@ == dec3(n as nat),
{
    let mut s = String::new();
    append_digit(&mut s, (n / 100) as u8);
    append_digit(&mut s, ((n / 10) % 10) as u8);
    append_digit(&mut s, (n % 10) as u8);
    proof {
        assert(s@ =~= dec3(n as nat));
    }
    s
}

/// Renders a number in decimal.
pub fn u64_to_dec(n: u64) -> (r: String)
    ensures
        r@ == dec_digits(n as nat),
    decreases n,
{
    if n < 10 {
        let mut s = String::new();
        append_digit(&mut s, n as u8);
        proof {
            assert(s@ =~= seq![digit_char(n as nat)]);
        }
        s
    } else {
        let mut s = u64_to_dec(n / 10);
        append_digit(&mut s, (n % 10) as u8);
        s
    }
}

} // verus!
