//! Decimal numbers as text.

use crate::text::{self, chars_of, head, position, string_of, tail};
use crate::unicode;
use vstd::prelude::*;

verus! {

// ── Specifications ──────────────────────────────────────────────────────────

/// `c` is an ASCII digit.
pub open spec fn is_digit(c: char) -> bool {
    '0' <= c <= '9'
}

/// Every character of `s` is an ASCII digit.
pub open spec fn all_digits(s: Seq<char>) -> bool {
    forall|i: int| 0 <= i < s.len() ==> is_digit(#[trigger] s[i])
}

/// The number that a run of digits writes in base ten.
pub open spec fn decimal(s: Seq<char>) -> nat
    decreases s.len(),
{
    if s.len() == 0 {
        0
    } else {
        decimal(s.drop_last()) * 10 + (s.last() as u32 - '0' as u32) as nat
    }
}

/// The digit of a number below ten.
pub open spec fn digit(n: nat) -> char {
    (('0' as u32 + n) as u32) as char
}

/// A number in base ten, without leading zeros.
pub open spec fn dec(n: nat) -> Seq<char>
    decreases n,
{
    if n < 10 {
        seq![digit(n)]
    } else {
        dec(n / 10).push(digit(n % 10))
    }
}

/// What stands after one leading `+`, where there is one.
pub open spec fn unsigned_part(s: Seq<char>) -> Seq<char> {
    if s.len() > 0 && s[0] == '+' {
        s.skip(1)
    } else {
        s
    }
}

/// The unsigned number, at most `max`, that `s` writes: digits, after at most
/// one `+`.
pub open spec fn parse_nat(s: Seq<char>, max: nat) -> Option<nat> {
    let d = unsigned_part(s);
    if d.len() > 0 && all_digits(d) && decimal(d) <= max {
        Some(decimal(d))
    } else {
        None
    }
}

/// The `i64` that `s` writes: digits, after at most one `+` or `-`.
pub open spec fn parse_int(s: Seq<char>) -> Option<int> {
    if s.len() > 0 && s[0] == '-' {
        let d = s.skip(1);
        if d.len() > 0 && all_digits(d) && -decimal(d) >= i64::MIN {
            Some(-(decimal(d) as int))
        } else {
            None
        }
    } else {
        match parse_nat(s, i64::MAX as nat) {
            Some(n) => Some(n as int),
            None => None,
        }
    }
}

/// `s` is `word`, in any mix of ASCII cases.
pub open spec fn is_word(s: Seq<char>, word: Seq<char>) -> bool {
    &&& s.len() == word.len()
    &&& forall|i: int| 0 <= i < s.len() ==> unicode::ascii_lower(#[trigger] s[i]) == word[i]
}

/// What stands after one leading sign, where there is one.
pub open spec fn after_sign(s: Seq<char>) -> Seq<char> {
    if s.len() > 0 && (s[0] == '+' || s[0] == '-') {
        s.skip(1)
    } else {
        s
    }
}

/// Where the exponent of `s` starts, or the end of `s` where it has none.
pub open spec fn exponent_at(s: Seq<char>) -> nat
    decreases s.len(),
{
    if s.len() == 0 || s[0] == 'e' || s[0] == 'E' {
        0
    } else {
        1 + exponent_at(s.skip(1))
    }
}

/// Digits with at most one point among them, and at least one digit.
pub open spec fn is_mantissa(s: Seq<char>) -> bool {
    match text::find(s, seq!['.']) {
        Some(i) => s.len() > 1 && all_digits(s.take(i)) && all_digits(s.skip(i + 1)),
        None => s.len() > 0 && all_digits(s),
    }
}

/// `s` writes a floating-point number: an optional sign, then `inf`,
/// `infinity` or `nan` in any case, or a mantissa with an optional exponent.
pub open spec fn is_float(s: Seq<char>) -> bool {
    let u = after_sign(s);
    let e = exponent_at(u) as int;
    ||| is_word(u, "inf"@)
    ||| is_word(u, "infinity"@)
    ||| is_word(u, "nan"@)
    ||| {
        &&& is_mantissa(u.take(e))
        &&& e < u.len() ==> {
            let x = after_sign(u.skip(e + 1));
            x.len() > 0 && all_digits(x)
        }
    }
}

// ── Facts ───────────────────────────────────────────────────────────────────

/// A longer run of digits writes a number at least as large as its prefix.
proof fn lemma_decimal_prefix(s: Seq<char>, k: int)
    requires
        0 <= k <= s.len(),
        all_digits(s),
    ensures
        decimal(s.take(k)) <= decimal(s),
    decreases s.len() - k,
{
    if k < s.len() {
        assert(s.take(k + 1).drop_last() =~= s.take(k));
        lemma_decimal_prefix(s, k + 1);
    } else {
        assert(s.take(k) =~= s);
    }
}

/// The text of a number is digits, and writes that number.
pub proof fn lemma_dec(n: nat)
    ensures
        dec(n).len() > 0,
        all_digits(dec(n)),
        decimal(dec(n)) == n,
    decreases n,
{
    if n < 10 {
        assert(dec(n).drop_last() =~= seq![]);
        assert(decimal(Seq::<char>::empty()) == 0);
        assert(dec(n).last() == digit(n));
    } else {
        lemma_dec(n / 10);
        assert(dec(n).drop_last() =~= dec(n / 10));
        assert(dec(n).last() == digit(n % 10));
    }
}

/// Reading the text of a number gives the number back, wherever it is within
/// the bound of the reader.
pub proof fn law_parse_dec(n: nat, max: nat)
    ensures
        parse_nat(dec(n), max) == (if n <= max {
            Some(n)
        } else {
            None
        }),
{
    lemma_dec(n);
    assert(is_digit(dec(n)[0]));
    assert(unsigned_part(dec(n)) == dec(n));
}

/// Two numbers with the same text are the same number.
pub proof fn law_dec_injective(a: nat, b: nat)
    requires
        dec(a) == dec(b),
    ensures
        a == b,
{
    lemma_dec(a);
    lemma_dec(b);
}

/// Digits have no white space to trim.
pub proof fn lemma_digits_trimmed(s: Seq<char>)
    requires
        s.len() > 0,
        all_digits(s),
    ensures
        text::trim(s) == s,
{
    assert(is_digit(s[0]));
    assert(is_digit(s[s.len() - 1]));
}

// ── Operations ──────────────────────────────────────────────────────────────

/// Whether `c` is an ASCII digit.
pub fn digit_char(c: char) -> (r: bool)
    ensures
        r == is_digit(c),
{
    '0' <= c && c <= '9'
}

/// Whether every character of `s` is an ASCII digit.
pub fn only_digits(s: &[char]) -> (r: bool)
    ensures
        r == all_digits(s@),
{
    let mut i: usize = 0;
    while i < s.len()
        invariant
            i <= s@.len(),
            forall|j: int| 0 <= j < i ==> is_digit(#[trigger] s@[j]),
        decreases s@.len() - i,
    {
        if !digit_char(s[i]) {
            return false;
        }
        i += 1;
    }
    true
}

/// The number that digits write from position `from` on, at most `max`.
fn digits_value(s: &[char], from: usize, max: u64) -> (r: Option<u64>)
    requires
        from <= s@.len(),
    ensures
        ({
            let d = s@.skip(from as int);
            match r {
                Some(n) => d.len() > 0 && all_digits(d) && decimal(d) == n && n <= max,
                None => d.len() == 0 || !all_digits(d) || decimal(d) > max,
            }
        }),
{
    let ghost d = s@.skip(from as int);
    if from == s.len() {
        return None;
    }
    let mut i: usize = from;
    let mut n: u64 = 0;
    assert(d.take(0) =~= seq![]);
    while i < s.len()
        invariant
            from <= i <= s@.len(),
            d == s@.skip(from as int),
            d.len() > 0,
            n == decimal(d.take(i - from)),
            n <= max,
            forall|j: int| 0 <= j < i - from ==> is_digit(#[trigger] d[j]),
        decreases s@.len() - i,
    {
        let c = s[i];
        assert(d[i - from] == c);
        if !digit_char(c) {
            return None;
        }
        let v: u64 = (c as u32 - '0' as u32) as u64;
        assert(d.take(i - from + 1).drop_last() =~= d.take(i - from));
        assert(d.take(i - from + 1).last() == c);
        if n > max / 10 || v > max - n * 10 {
            proof {
                assert(decimal(d.take(i - from + 1)) > max);
                if all_digits(d) {
                    lemma_decimal_prefix(d, i - from + 1);
                }
            }
            return None;
        }
        n = n * 10 + v;
        i += 1;
    }
    assert(d.take(i - from) =~= d);
    Some(n)
}

/// The unsigned number, at most `max`, that `s` writes.
pub fn read_unsigned(s: &[char], max: u64) -> (r: Option<u64>)
    ensures
        match r {
            Some(n) => parse_nat(s@, max as nat) == Some(n as nat) && n <= max,
            None => parse_nat(s@, max as nat) is None,
        },
{
    if s.len() > 0 && s[0] == '+' {
        digits_value(s, 1, max)
    } else {
        assert(s@.skip(0) =~= s@);
        digits_value(s, 0, max)
    }
}

/// The `u8` that `s` writes.
pub fn read_u8(s: &[char]) -> (r: Option<u8>)
    ensures
        match r {
            Some(n) => parse_nat(s@, u8::MAX as nat) == Some(n as nat),
            None => parse_nat(s@, u8::MAX as nat) is None,
        },
{
    match read_unsigned(s, 255) {
        Some(n) => Some(n as u8),
        None => None,
    }
}

/// The `u32` that `s` writes.
pub fn read_u32(s: &[char]) -> (r: Option<u32>)
    ensures
        match r {
            Some(n) => parse_nat(s@, u32::MAX as nat) == Some(n as nat),
            None => parse_nat(s@, u32::MAX as nat) is None,
        },
{
    match read_unsigned(s, 0xffff_ffff) {
        Some(n) => Some(n as u32),
        None => None,
    }
}

/// The `u64` that `s` writes.
pub fn read_u64(s: &[char]) -> (r: Option<u64>)
    ensures
        match r {
            Some(n) => parse_nat(s@, u64::MAX as nat) == Some(n as nat),
            None => parse_nat(s@, u64::MAX as nat) is None,
        },
{
    read_unsigned(s, u64::MAX)
}

/// The `i64` that `s` writes.
pub fn read_i64(s: &[char]) -> (r: Option<i64>)
    ensures
        match r {
            Some(n) => parse_int(s@) == Some(n as int),
            None => parse_int(s@) is None,
        },
{
    if s.len() > 0 && s[0] == '-' {
        match digits_value(s, 1, 0x8000_0000_0000_0000) {
            Some(n) => if n == 0x8000_0000_0000_0000 {
                Some(i64::MIN)
            } else {
                Some(-(n as i64))
            },
            None => None,
        }
    } else {
        match read_unsigned(s, 0x7fff_ffff_ffff_ffff) {
            Some(n) => Some(n as i64),
            None => None,
        }
    }
}

/// Whether `s` is `word`, in any mix of ASCII cases.
fn word_is(s: &[char], word: &str) -> (r: bool)
    ensures
        r == is_word(s@, word@),
{
    let w = chars_of(word);
    if s.len() != w.len() {
        return false;
    }
    let mut i: usize = 0;
    while i < s.len()
        invariant
            i <= s@.len(),
            s@.len() == w@.len(),
            w@ == word@,
            forall|j: int| 0 <= j < i ==> unicode::ascii_lower(#[trigger] s@[j]) == word@[j],
        decreases s@.len() - i,
    {
        if lower_char(s[i]) != w[i] {
            return false;
        }
        i += 1;
    }
    true
}

/// The lower case of an ASCII character.
fn lower_char(c: char) -> (r: char)
    ensures
        r == unicode::ascii_lower(c),
{
    if 'A' <= c && c <= 'Z' {
        (c as u8 + 32) as char
    } else {
        c
    }
}

/// What stands after one leading sign, where there is one.
fn skip_sign(s: &[char]) -> (r: &[char])
    ensures
        r@ == after_sign(s@),
{
    if s.len() > 0 && (s[0] == '+' || s[0] == '-') {
        tail(s, 1)
    } else {
        s
    }
}

/// Whether `s` writes a floating-point number.
pub fn float_text(s: &[char]) -> (r: bool)
    ensures
        r == is_float(s@),
{
    let u = skip_sign(s);
    if word_is(u, "inf") || word_is(u, "infinity") || word_is(u, "nan") {
        return true;
    }
    let mut e: usize = 0;
    assert(u@.skip(0) =~= u@);
    while e < u.len() && u[e] != 'e' && u[e] != 'E'
        invariant
            e <= u@.len(),
            exponent_at(u@) == e + exponent_at(u@.skip(e as int)),
        decreases u@.len() - e,
    {
        assert(u@.skip(e as int).skip(1) =~= u@.skip(e + 1));
        e += 1;
    }
    let m = head(u, e);
    proof {
        reveal_strlit(".");
        assert("."@ =~= seq!['.']);
    }
    let mantissa: bool = match position(m, ".") {
        Some(i) => m.len() > 1 && only_digits(head(m, i)) && only_digits(tail(m, i + 1)),
        None => m.len() > 0 && only_digits(m),
    };
    if !mantissa {
        return false;
    }
    if e == u.len() {
        return true;
    }
    let x = skip_sign(tail(u, e + 1));
    x.len() > 0 && only_digits(x)
}

/// Appends the digits of `n`.
fn push_digits(v: &mut Vec<char>, n: u64)
    ensures
        final(v)@ == old(v)@ + dec(n as nat),
    decreases n,
{
    let low: char = (48 + (n % 10) as u8) as char;
    assert(low == digit((n % 10) as nat));
    if n >= 10 {
        push_digits(v, n / 10);
    }
    v.push(low);
    assert(v@ =~= old(v)@ + dec(n as nat));
}

/// The text of a number.
pub fn number_text(n: u64) -> (r: String)
    ensures
        r@ == dec(n as nat),
{
    let mut v: Vec<char> = Vec::new();
    push_digits(&mut v, n);
    assert(v@ =~= dec(n as nat));
    string_of(v.as_slice())
}

// ── Laws ────────────────────────────────────────────────────────────────────

/// A whole number is read back from its digits, with a sign or without one, as
/// far as it fits.
pub proof fn law_parse_int(n: nat)
    ensures
        n <= i64::MAX ==> parse_int(dec(n)) == Some(n as int),
        n <= i64::MAX ==> parse_int("+"@ + dec(n)) == Some(n as int),
        -n >= i64::MIN ==> parse_int("-"@ + dec(n)) == Some(-n),
        n > i64::MAX ==> parse_int(dec(n)) is None,
        -n < i64::MIN ==> parse_int("-"@ + dec(n)) is None,
{
    reveal_strlit("+");
    reveal_strlit("-");
    lemma_dec(n);
    law_parse_dec(n, i64::MAX as nat);
    assert(is_digit(dec(n)[0]));
    let plus = "+"@ + dec(n);
    let minus = "-"@ + dec(n);
    assert(plus[0] == '+' && plus.skip(1) =~= dec(n));
    assert(minus[0] == '-' && minus.skip(1) =~= dec(n));
}

/// What holds anything but digits, after a sign, is no whole number.
pub proof fn law_only_digits_parse(s: Seq<char>, i: int)
    requires
        0 <= i < s.len(),
        !is_digit(s[i]),
        i > 0 || (s[i] != '+' && s[i] != '-'),
    ensures
        parse_int(s) is None,
        forall|max: nat| #[trigger] parse_nat(s, max) is None,
{
    if s[0] == '+' || s[0] == '-' {
        assert(s.skip(1)[i - 1] == s[i]);
    }
}


/// A number in digits is a number with a decimal point too, with a point and
/// digits behind it, with a sign before it and with an exponent.
pub proof fn law_float_written(a: nat, b: nat, e: nat)
    ensures
        is_float(dec(a)),
        is_float(dec(a) + "."@ + dec(b)),
        is_float("-"@ + dec(a)),
        is_float("+"@ + dec(a)),
        is_float("-"@ + dec(a) + "."@ + dec(b)),
        is_float(dec(a) + "e"@ + dec(e)),
        is_float(dec(a) + "e-"@ + dec(e)),
{
    reveal_strlit(".");
    reveal_strlit("-");
    reveal_strlit("+");
    reveal_strlit("e");
    reveal_strlit("e-");
    lemma_dec(a);
    lemma_dec(b);
    lemma_dec(e);
    let none = Seq::<char>::empty();
    let x = dec(a);
    let y = dec(a) + "."@ + dec(b);
    assert(is_digit(x[0]));
    assert(y[0] == x[0]);
    lemma_point(a, b);
    assert(forall|i: int| 0 <= i < x.len() ==> is_digit(#[trigger] x[i]));
    lemma_no_exponent(x, none);
    assert(x + none =~= x);
    lemma_no_exponent(y, none);
    assert(y + none =~= y);
    lemma_no_point(x);
    let m = "-"@ + x;
    let p = "+"@ + x;
    let n = "-"@ + x + "."@ + dec(b);
    assert(m[0] == '-' && m.skip(1) =~= x);
    assert(p[0] == '+' && p.skip(1) =~= x);
    assert(n[0] == '-' && n.skip(1) =~= y);
    assert(x.take(x.len() as int) =~= x);
    assert(y.take(y.len() as int) =~= y);
    let s = x + "e"@ + dec(e);
    let t = x + "e-"@ + dec(e);
    assert(s[0] == x[0] && t[0] == x[0]);
    assert(s =~= x + ("e"@ + dec(e)));
    assert(t =~= x + ("e-"@ + dec(e)));
    lemma_no_exponent(x, "e"@ + dec(e));
    lemma_no_exponent(x, "e-"@ + dec(e));
    let k = x.len() as int;
    assert(s.take(k) =~= x && t.take(k) =~= x);
    assert(s.skip(k + 1) =~= dec(e));
    assert(is_digit(dec(e)[0]));
    let u = t.skip(k + 1);
    assert(u[0] == '-' && u.skip(1) =~= dec(e));
}

proof fn lemma_no_point(x: Seq<char>)
    requires
        all_digits(x),
        x.len() > 0,
    ensures
        is_mantissa(x),
{
    text::lemma_find(x, seq!['.']);
    if text::find(x, seq!['.']) is Some {
        let i = text::find(x, seq!['.'])->0;
        assert(x.subrange(i, i + 1)[0] == x[i]);
        assert(is_digit(x[i]));
    }
}

proof fn lemma_point(a: nat, b: nat)
    ensures
        is_mantissa(dec(a) + "."@ + dec(b)),
        forall|i: int|
            0 <= i < (dec(a) + "."@ + dec(b)).len() ==> #[trigger] (dec(a) + "."@ + dec(b))[i] != 'e'
                && (dec(a) + "."@ + dec(b))[i] != 'E',
{
    reveal_strlit(".");
    lemma_dec(a);
    lemma_dec(b);
    let y = dec(a) + "."@ + dec(b);
    let i = dec(a).len() as int;
    assert forall|k: int| 0 <= k < y.len() implies (#[trigger] y[k] == '.' <==> k == i) && y[k]
        != 'e' && y[k] != 'E' by {
        if k < i {
            assert(is_digit(dec(a)[k]));
        } else if k > i {
            assert(is_digit(dec(b)[k - i - 1]));
        }
    }
    assert(y.subrange(i, i + 1) =~= seq!['.']);
    text::lemma_found_by_head(y, seq!['.'], i);
    assert(y.take(i) =~= dec(a));
    assert(y.skip(i + 1) =~= dec(b));
}

proof fn lemma_no_exponent(s: Seq<char>, rest: Seq<char>)
    requires
        forall|i: int| 0 <= i < s.len() ==> #[trigger] s[i] != 'e' && s[i] != 'E',
        rest.len() > 0 ==> rest[0] == 'e' || rest[0] == 'E',
    ensures
        exponent_at(s + rest) == s.len(),
    decreases s.len(),
{
    if s.len() > 0 {
        assert((s + rest)[0] == s[0]);
        assert((s + rest).skip(1) =~= s.skip(1) + rest);
        assert(forall|i: int| 0 <= i < s.skip(1).len() ==> #[trigger] s.skip(1)[i] == s[i + 1]);
        lemma_no_exponent(s.skip(1), rest);
    } else {
        assert(s + rest =~= rest);
    }
}

} // verus!
