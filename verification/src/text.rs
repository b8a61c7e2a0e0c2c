//! Executable helpers for strings and their character-sequence views,
//! and the decimal forms the wire format uses: string equality, digit
//! runs, signed offsets, decimal seconds with millisecond precision,
//! and ASCII whitespace trimming.

use vstd::prelude::*;
use vstd::string::StrSliceExecFns;
use vstd::string::StringExecFns;

verus! {

/// Character-by-character string equality, decided over the views.
pub fn str_eq(a: &str, b: &str) -> (r: bool)
    ensures
        r == (a@ == b@),
{
    let a_len = a.unicode_len();
    let b_len = b.unicode_len();
    if a_len != b_len {
        assert(a@ != b@);
        return false;
    }
    let mut i: usize = 0;
    while i < a_len
        invariant
            i <= a_len,
            a_len == a@.len(),
            b_len == b@.len(),
            a_len == b_len,
            forall|j: int| 0 <= j < i ==> a@[j] == b@[j],
        decreases a_len - i,
    {
        if a.get_char(i) != b.get_char(i) {
            return false;
        }
        i += 1;
    }
    assert(a@ =~= b@);
    true
}

/// Appends one character to a string.
///
/// Relies on `String::push`, which appends the given character to the end
/// of the string; `vstd` does not specify it.
#[verifier::external_body]
pub fn push_char(s: &mut String, c: char)
    ensures
        final(s)@ == old(s)@.push(c),
{
    s.push(c);
}

/// An ASCII decimal digit.
pub open spec fn is_digit_char(c: char) -> bool {
    '0' <= c && c <= '9'
}

/// The numeric value of a decimal digit character.
pub open spec fn digit_val(c: char) -> nat {
    (c as u32 - '0' as u32) as nat
}

/// Every character of `s` is a decimal digit.
pub open spec fn all_digits(s: Seq<char>) -> bool {
    forall|i: int| 0 <= i < s.len() ==> is_digit_char(#[trigger] s[i])
}

/// The number denoted by a sequence of decimal digits (most significant
/// first); 0 for the empty sequence.
pub open spec fn digits_val(s: Seq<char>) -> nat
    decreases s.len(),
{
    if s.len() == 0 {
        0
    } else {
        digits_val(s.drop_last()) * 10 + digit_val(s.last())
    }
}

/// The digit character for a value below ten.
pub open spec fn digit_char(n: nat) -> char {
    if n == 0 { '0' }
    else if n == 1 { '1' }
    else if n == 2 { '2' }
    else if n == 3 { '3' }
    else if n == 4 { '4' }
    else if n == 5 { '5' }
    else if n == 6 { '6' }
    else if n == 7 { '7' }
    else if n == 8 { '8' }
    else if n == 9 { '9' }
    else { ' ' }
}

/// The canonical decimal rendering of `n`: no leading zeroes, except that
/// 0 itself renders as "0".
pub open spec fn dec_str(n: nat) -> Seq<char>
    decreases n,
{
    if n < 10 {
        seq![digit_char(n)]
    } else {
        dec_str(n / 10).push(digit_char(n % 10))
    }
}

fn digit_char_exec(d: u64) -> (c: char)
    requires
        d < 10,
    ensures
        c == digit_char(d as nat),
{
    if d == 0 { '0' }
    else if d == 1 { '1' }
    else if d == 2 { '2' }
    else if d == 3 { '3' }
    else if d == 4 { '4' }
    else if d == 5 { '5' }
    else if d == 6 { '6' }
    else if d == 7 { '7' }
    else if d == 8 { '8' }
    else { '9' }
}

proof fn lemma_digits_val_take_succ(s: Seq<char>, i: int)
    requires
        0 <= i < s.len(),
    ensures
        digits_val(s.take(i + 1)) == digits_val(s.take(i)) * 10 + digit_val(s[i]),
{
    assert(s.take(i + 1).drop_last() =~= s.take(i));
    assert(s.take(i + 1).last() == s[i]);
}

proof fn lemma_digits_val_take_mono(s: Seq<char>, i: int, j: int)
    requires
        0 <= i <= j <= s.len(),
    ensures
        digits_val(s.take(i)) <= digits_val(s.take(j)),
    decreases j - i,
{
    if i < j {
        lemma_digits_val_take_mono(s, i, j - 1);
        lemma_digits_val_take_succ(s, j - 1);
        let v = digits_val(s.take(j - 1));
        assert(v * 10 >= v) by (nonlinear_arith);
    }
}

/// Parses a run of decimal digits `s@.subrange(start, end)` as a `u64`;
/// `None` if the run is empty, holds a non-digit, or overflows.
fn parse_digits(s: &str, start: usize, end: usize) -> (r: Option<u64>)
    requires
        start <= end <= s@.len(),
    ensures
        ({
            let body = s@.subrange(start as int, end as int);
            if body.len() > 0 && all_digits(body) && digits_val(body) <= u64::MAX {
                r == Some(digits_val(body) as u64)
            } else {
                r is None
            }
        }),
{
    let ghost body = s@.subrange(start as int, end as int);
    if start == end {
        return None;
    }
    let mut acc: u64 = 0;
    let mut i: usize = start;
    while i < end
        invariant
            start <= i <= end <= s@.len(),
            body == s@.subrange(start as int, end as int),
            all_digits(body.take(i - start)),
            acc == digits_val(body.take(i - start)),
        decreases end - i,
    {
        let c = s.get_char(i);
        assert(c == body[i - start]);
        if !(c >= '0' && c <= '9') {
            assert(!is_digit_char(body[i - start]));
            return None;
        }
        let d: u64 = (c as u32 as u64) - 48;
        assert(d == digit_val(c));
        proof {
            lemma_digits_val_take_succ(body, i - start);
        }
        if acc > (u64::MAX - d) / 10 {
            proof {
                assert(acc * 10 + d > u64::MAX) by (nonlinear_arith)
                    requires
                        acc > (u64::MAX - d) / 10,
                        d < 10,
                ;
                lemma_digits_val_take_mono(body, i - start + 1, body.len() as int);
                assert(body.take(body.len() as int) =~= body);
            }
            return None;
        }
        assert(acc * 10 + d <= u64::MAX) by (nonlinear_arith)
            requires
                acc <= (u64::MAX - d) / 10,
                d < 10,
        ;
        acc = acc * 10 + d;
        i += 1;
    }
    assert(body.take(end - start) =~= body);
    Some(acc)
}

/// A `u64` written in decimal, with an optional leading `+`.
pub open spec fn parse_u64_spec(s: Seq<char>) -> Option<u64> {
    let body = if s.len() > 0 && s[0] == '+' {
        s.skip(1)
    } else {
        s
    };
    if body.len() > 0 && all_digits(body) && digits_val(body) <= u64::MAX {
        Some(digits_val(body) as u64)
    } else {
        None
    }
}

/// Parses a decimal `u64`, accepting an optional leading `+`.
pub fn parse_u64(s: &str) -> (r: Option<u64>)
    ensures
        r == parse_u64_spec(s@),
{
    let n = s.unicode_len();
    let start: usize = if n > 0 && s.get_char(0) == '+' {
        1
    } else {
        0
    };
    let r = parse_digits(s, start, n);
    proof {
        if start == 1 {
            assert(s@.subrange(1, n as int) =~= s@.skip(1));
        } else {
            assert(s@.subrange(0, n as int) =~= s@);
        }
    }
    r
}

/// An `i64` written in decimal, with an optional leading `+` or `-`.
pub open spec fn parse_i64_spec(s: Seq<char>) -> Option<i64> {
    let neg = s.len() > 0 && s[0] == '-';
    let body = if s.len() > 0 && (s[0] == '-' || s[0] == '+') {
        s.skip(1)
    } else {
        s
    };
    if body.len() > 0 && all_digits(body) {
        let v = digits_val(body) as int;
        if neg && -v >= i64::MIN {
            Some((-v) as i64)
        } else if !neg && v <= i64::MAX {
            Some(v as i64)
        } else {
            None
        }
    } else {
        None
    }
}

/// Parses a decimal `i64`, accepting an optional leading `+` or `-`.
pub fn parse_i64(s: &str) -> (r: Option<i64>)
    ensures
        r == parse_i64_spec(s@),
{
    let n = s.unicode_len();
    let mut neg = false;
    let mut start: usize = 0;
    if n > 0 {
        let c = s.get_char(0);
        if c == '-' {
            neg = true;
            start = 1;
        } else if c == '+' {
            start = 1;
        }
    }
    let ghost body = if start == 1 {
        s@.skip(1)
    } else {
        s@
    };
    proof {
        if start == 1 {
            assert(s@.subrange(1, n as int) =~= s@.skip(1));
        } else {
            assert(s@.subrange(0, n as int) =~= s@);
        }
    }
    let mag = match parse_digits(s, start, n) {
        Some(m) => m,
        None => {
            proof {
                if body.len() > 0 && all_digits(body) {
                    lemma_digits_val_bound(body);
                }
            }
            return None;
        },
    };
    if neg {
        if mag <= i64::MAX as u64 {
            Some(-(mag as i64))
        } else if mag == i64::MAX as u64 + 1 {
            Some(i64::MIN)
        } else {
            None
        }
    } else {
        if mag <= i64::MAX as u64 {
            Some(mag as i64)
        } else {
            None
        }
    }
}

proof fn lemma_digits_val_bound(s: Seq<char>)
    requires
        s.len() > 0,
        all_digits(s),
        digits_val(s) > u64::MAX,
    ensures
        digits_val(s) > i64::MAX as nat + 1,
{
}

/// Renders `n` in decimal.
pub fn format_u64(n: u64) -> (r: String)
    ensures
        r@ == dec_str(n as nat),
    decreases n,
{
    if n < 10 {
        let mut s = String::new();
        push_char(&mut s, digit_char_exec(n));
        assert(s@ =~= dec_str(n as nat));
        s
    } else {
        let mut s = format_u64(n / 10);
        push_char(&mut s, digit_char_exec(n % 10));
        assert(s@ =~= dec_str(n as nat));
        s
    }
}

/// The decimal rendering of `v` with an explicit sign, so that zero
/// (rendered `+0`) stays distinguishable from an absent value.
pub open spec fn signed_dec_str(v: int) -> Seq<char> {
    if v >= 0 {
        seq!['+'] + dec_str(v as nat)
    } else {
        seq!['-'] + dec_str((-v) as nat)
    }
}

/// Renders `v` in decimal with an explicit `+` or `-` sign.
pub fn format_i64_signed(v: i64) -> (r: String)
    ensures
        r@ == signed_dec_str(v as int),
{
    let mut s = String::new();
    if v >= 0 {
        push_char(&mut s, '+');
        let d = format_u64(v as u64);
        s.append(d.as_str());
        assert(s@ =~= signed_dec_str(v as int));
    } else {
        push_char(&mut s, '-');
        let mag: u64 = (-(v as i128)) as u64;
        let d = format_u64(mag);
        s.append(d.as_str());
        assert(s@ =~= signed_dec_str(v as int));
    }
    s
}

/// The index of the first occurrence of `c` in `s`, if any.
pub open spec fn find_char(s: Seq<char>, c: char) -> Option<int>
    decreases s.len(),
{
    if s.len() == 0 {
        None
    } else if s[0] == c {
        Some(0)
    } else {
        match find_char(s.skip(1), c) {
            Some(i) => Some(i + 1),
            None => None,
        }
    }
}

pub proof fn lemma_find_char(s: Seq<char>, c: char)
    ensures
        match find_char(s, c) {
            Some(i) => 0 <= i < s.len() && s[i] == c && (forall|j: int|
                0 <= j < i ==> s[j] != c),
            None => forall|j: int| 0 <= j < s.len() ==> s[j] != c,
        },
    decreases s.len(),
{
    if s.len() > 0 && s[0] != c {
        lemma_find_char(s.skip(1), c);
        let t = s.skip(1);
        assert(forall|j: int| 1 <= j < s.len() ==> s[j] == t[j - 1]);
        match find_char(t, c) {
            Some(i) => {
                assert(find_char(s, c) == Some(i + 1));
                assert(s[i + 1] == t[i]);
                assert(forall|j: int| 0 <= j < i + 1 ==> s[j] != c) by {
                    assert(forall|j: int| 1 <= j < i + 1 ==> s[j] == t[j - 1] && t[j - 1] != c);
                }
            },
            None => {
                assert(forall|j: int| 0 <= j < s.len() ==> s[j] != c) by {
                    assert(forall|j: int| 1 <= j < s.len() ==> s[j] == t[j - 1] && t[j - 1] != c);
                }
            },
        }
    }
}

/// Finds the first occurrence of `c` in `s`.
pub fn find_char_exec(s: &str, c: char) -> (r: Option<usize>)
    ensures
        match r {
            Some(i) => find_char(s@, c) == Some(i as int),
            None => find_char(s@, c) is None,
        },
{
    proof {
        lemma_find_char(s@, c);
    }
    let n = s.unicode_len();
    let mut i: usize = 0;
    while i < n
        invariant
            i <= n,
            n == s@.len(),
            forall|j: int| 0 <= j < i ==> s@[j] != c,
        decreases n - i,
    {
        if s.get_char(i) == c {
            proof {
                lemma_find_char(s@, c);
            }
            return Some(i);
        }
        i += 1;
    }
    None
}

/// Milliseconds denoted by a fractional part, truncated beyond the third
/// digit.
pub open spec fn frac_ms(f: Seq<char>) -> nat {
    (if f.len() > 0 {
        digit_val(f[0]) * 100
    } else {
        0
    }) + (if f.len() > 1 {
        digit_val(f[1]) * 10
    } else {
        0
    }) + (if f.len() > 2 {
        digit_val(f[2])
    } else {
        0
    })
}

/// A non-negative decimal number of seconds (digits, optionally a dot and
/// more digits), read as a whole number of milliseconds; fractional digits
/// beyond milliseconds are truncated.
pub open spec fn parse_millis_spec(s: Seq<char>) -> Option<u64> {
    match find_char(s, '.') {
        Some(dot) => {
            let w = s.take(dot);
            let f = s.skip(dot + 1);
            if w.len() > 0 && f.len() > 0 && all_digits(w) && all_digits(f) {
                let v = digits_val(w) * 1000 + frac_ms(f);
                if v <= u64::MAX {
                    Some(v as u64)
                } else {
                    None
                }
            } else {
                None
            }
        },
        None => {
            if s.len() > 0 && all_digits(s) {
                let v = digits_val(s) * 1000;
                if v <= u64::MAX {
                    Some(v as u64)
                } else {
                    None
                }
            } else {
                None
            }
        },
    }
}

/// Parses a decimal seconds value into milliseconds.
pub fn parse_millis(s: &str) -> (r: Option<u64>)
    ensures
        r == parse_millis_spec(s@),
{
    let n = s.unicode_len();
    let dot = find_char_exec(s, '.');
    proof {
        lemma_find_char(s@, '.');
    }
    let (wend, fstart): (usize, usize) = match dot {
        Some(i) => (i, i + 1),
        None => (n, n),
    };
    let ghost w = if dot is Some {
        s@.take(wend as int)
    } else {
        s@
    };
    let ghost f = s@.skip(fstart as int);
    proof {
        assert(s@.subrange(0, wend as int) =~= w);
        assert(s@.subrange(fstart as int, n as int) =~= f);
        if dot is None {
            assert(f.len() == 0);
        }
    }
    if dot.is_some() && fstart >= n {
        // a trailing dot with no fractional digits
        return None;
    }
    // validate the fractional digits and read the first three
    let mut frac: u64 = 0;
    let mut i: usize = fstart;
    while i < n
        invariant
            fstart <= i <= n,
            n == s@.len(),
            wend <= n,
            f == s@.skip(fstart as int),
            w == (if dot is Some {
                s@.take(wend as int)
            } else {
                s@
            }),
            match dot {
                Some(di) => find_char(s@, '.') == Some(di as int) && wend == di && fstart == di
                    + 1 && fstart <= n,
                None => find_char(s@, '.') is None && wend == n && fstart == n,
            },
            all_digits(f.take(i - fstart)),
            frac == frac_ms(f.take(i - fstart)),
        decreases n - i,
    {
        let c = s.get_char(i);
        assert(c == f[i - fstart]);
        if !(c >= '0' && c <= '9') {
            proof {
                let k = (i - fstart) as int;
                assert(0 <= k < f.len());
                assert(!is_digit_char(f[k]));
                assert(!all_digits(f));
            }
            return None;
        }
        let d: u64 = (c as u32 as u64) - 48;
        proof {
            let k = (i - fstart) as int;
            assert(f.take(k + 1) =~= f.take(k).push(f[k]));
            if k > 2 {
                assert(frac_ms(f.take(k + 1)) == frac_ms(f.take(k)));
            }
        }
        if i - fstart == 0 {
            frac = d * 100;
        } else if i - fstart == 1 {
            frac = frac + d * 10;
        } else if i - fstart == 2 {
            frac = frac + d;
        }
        i += 1;
    }
    assert(f.take(n - fstart) =~= f);
    assert(frac == frac_ms(f));
    assert(frac < 1000);
    let whole = match parse_digits(s, 0, wend) {
        Some(v) => v,
        None => {
            proof {
                if w.len() > 0 && all_digits(w) {
                    // the whole part alone overflows, so the value does too
                    assert(digits_val(w) > u64::MAX);
                    assert(digits_val(w) * 1000 >= digits_val(w)) by (nonlinear_arith);
                }
            }
            return None;
        },
    };
    if whole > (u64::MAX - frac) / 1000 {
        proof {
            assert(whole * 1000 + frac > u64::MAX) by (nonlinear_arith)
                requires
                    whole > (u64::MAX - frac) / 1000,
                    frac < 1000,
            ;
        }
        return None;
    }
    assert(whole * 1000 + frac <= u64::MAX) by (nonlinear_arith)
        requires
            whole <= (u64::MAX - frac) / 1000,
            frac < 1000,
    ;
    Some(whole * 1000 + frac)
}

/// The rendering of a millisecond count as decimal seconds with exactly
/// three fractional digits.
pub open spec fn millis_str(ms: nat) -> Seq<char> {
    dec_str(ms / 1000) + seq![
        '.',
        digit_char((ms % 1000) / 100),
        digit_char(((ms % 1000) / 10) % 10),
        digit_char((ms % 1000) % 10),
    ]
}

/// Renders a millisecond count as decimal seconds.
pub fn format_millis(ms: u64) -> (r: String)
    ensures
        r@ == millis_str(ms as nat),
{
    let mut s = format_u64(ms / 1000);
    let m = ms % 1000;
    push_char(&mut s, '.');
    push_char(&mut s, digit_char_exec(m / 100));
    push_char(&mut s, digit_char_exec((m / 10) % 10));
    push_char(&mut s, digit_char_exec(m % 10));
    assert(s@ =~= millis_str(ms as nat));
    s
}

/// An ASCII whitespace character.
pub open spec fn is_ascii_ws(c: char) -> bool {
    c == ' ' || c == '\t' || c == '\n' || c == '\r' || c == '\u{c}'
}

/// `s` with leading ASCII whitespace removed.
pub open spec fn trim_start_spec(s: Seq<char>) -> Seq<char>
    decreases s.len(),
{
    if s.len() > 0 && is_ascii_ws(s[0]) {
        trim_start_spec(s.skip(1))
    } else {
        s
    }
}

/// `s` with trailing ASCII whitespace removed.
pub open spec fn trim_end_spec(s: Seq<char>) -> Seq<char>
    decreases s.len(),
{
    if s.len() > 0 && is_ascii_ws(s.last()) {
        trim_end_spec(s.drop_last())
    } else {
        s
    }
}

/// `s` with ASCII whitespace removed from both ends.
pub open spec fn trim_spec(s: Seq<char>) -> Seq<char> {
    trim_end_spec(trim_start_spec(s))
}

pub proof fn lemma_trim_start(s: Seq<char>, k: int)
    requires
        0 <= k <= s.len(),
        forall|j: int| 0 <= j < k ==> is_ascii_ws(s[j]),
        k == s.len() || !is_ascii_ws(s[k]),
    ensures
        trim_start_spec(s) == s.skip(k),
    decreases k,
{
    if k > 0 {
        lemma_trim_start(s.skip(1), k - 1);
        assert(s.skip(1).skip(k - 1) =~= s.skip(k));
    } else {
        assert(s.skip(0) =~= s);
    }
}

pub proof fn lemma_trim_end(s: Seq<char>, k: int)
    requires
        0 <= k <= s.len(),
        forall|j: int| k <= j < s.len() ==> is_ascii_ws(s[j]),
        k == 0 || !is_ascii_ws(s[k - 1]),
    ensures
        trim_end_spec(s) == s.take(k),
    decreases s.len() - k,
{
    if k < s.len() {
        lemma_trim_end(s.drop_last(), k);
        assert(s.drop_last().take(k) =~= s.take(k));
    } else {
        assert(s.take(s.len() as int) =~= s);
    }
}

} // verus!
