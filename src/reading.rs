use vstd::prelude::*;

use crate::text::{decimal, hex_digit, push_decimal};

verus! {

/// A measured quantity (degrees, km/h, mm) as an exact decimal:
/// `digits * 10^exponent`, negative when `negative` is set.
///
/// A well-formed reading is normalised (no trailing zero in `digits`, and
/// zero is `0 * 10^0`), so two well-formed readings are equal exactly when
/// they stand for the same number. Zero keeps its sign for display (`-0`),
/// and `-0` equals `0`.
#[derive(Clone, Copy, Debug)]
pub struct Reading {
    pub negative: bool,
    pub digits: u128,
    pub exponent: i128,
}

/// The longest numeral that `Reading::parse` reads: any numeral of this
/// length has a value that a reading holds exactly.
pub const NUMERAL_MAX_LEN: usize = 38;

pub open spec fn is_digit(c: char) -> bool {
    '0' <= c && c <= '9'
}

pub open spec fn digit_value(c: char) -> nat {
    ((c as int) - ('0' as int)) as nat
}

/// The number that a string of decimal digits spells.
pub open spec fn digits_value(s: Seq<char>) -> nat
    decreases s.len(),
{
    if s.len() == 0 {
        0
    } else {
        digits_value(s.drop_last()) * 10 + digit_value(s.last())
    }
}

/// How many decimal digits `s` starts with.
pub open spec fn digit_run(s: Seq<char>) -> nat
    decreases s.len(),
{
    if s.len() > 0 && is_digit(s[0]) {
        1 + digit_run(s.drop_first())
    } else {
        0
    }
}

pub open spec fn pow10(e: nat) -> nat
    decreases e,
{
    if e == 0 {
        1
    } else {
        10 * pow10((e - 1) as nat)
    }
}

/// Whether the digits of a numeral without sign are followed by a point.
pub open spec fn has_point(body: Seq<char>) -> bool {
    let k = digit_run(body);
    k < body.len() && body[k as int] == '.'
}

/// The digits after the point, if there is one.
pub open spec fn fraction(body: Seq<char>) -> Seq<char> {
    if has_point(body) {
        let after = body.skip(digit_run(body) + 1int);
        after.take(digit_run(after) as int)
    } else {
        Seq::empty()
    }
}

/// How many characters the digits, point and fraction take.
pub open spec fn mantissa_len(body: Seq<char>) -> nat {
    if has_point(body) {
        digit_run(body) + 1 + fraction(body).len()
    } else {
        digit_run(body)
    }
}

/// The exponent `[eE][+-]?D+` that ends a numeral, as its sign (`true` for
/// negative) and value; `(false, 0)` where there is none.
pub open spec fn exponent_of(tail: Seq<char>) -> Option<(bool, nat)> {
    if tail.len() == 0 {
        Some((false, 0))
    } else if tail[0] == 'e' || tail[0] == 'E' {
        let b = tail.drop_first();
        let signed = b.len() > 0 && (b[0] == '-' || b[0] == '+');
        let d = if signed { b.drop_first() } else { b };
        if d.len() > 0 && digit_run(d) == d.len() {
            Some((signed && b[0] == '-', digits_value(d)))
        } else {
            None
        }
    } else {
        None
    }
}

pub open spec fn zeros(k: nat) -> Seq<char> {
    Seq::new(k, |i: int| '0')
}

/// A numeral without sign: `D+(.D+)?([eE][+-]?D+)?`.
pub open spec fn unsigned_numeral(body: Seq<char>) -> bool {
    &&& digit_run(body) > 0
    &&& (has_point(body) ==> fraction(body).len() > 0)
    &&& exponent_of(body.skip(mantissa_len(body) as int)) is Some
}

/// A numeral without its leading `-`, if any.
pub open spec fn numeral_body(t: Seq<char>) -> Seq<char> {
    if t.len() > 0 && t[0] == '-' {
        t.drop_first()
    } else {
        t
    }
}

/// A numeral `-?D+(.D+)?([eE][+-]?D+)?`, where `D+` is one or more decimal
/// digits: the form in which JSON writes numbers.
pub open spec fn is_numeral(t: Seq<char>) -> bool {
    unsigned_numeral(numeral_body(t))
}

/// All digits of an unsigned numeral, before and after the point, as one
/// number.
pub open spec fn numeral_digits(body: Seq<char>) -> nat {
    digits_value(body.take(digit_run(body) as int) + fraction(body))
}

/// The power of ten that `numeral_digits` is to be scaled by.
pub open spec fn numeral_exponent(body: Seq<char>) -> int {
    let f = fraction(body).len() as int;
    match exponent_of(body.skip(mantissa_len(body) as int)) {
        Some((neg, x)) => if neg {
            -(x as int) - f
        } else {
            x as int - f
        },
        None => 0,
    }
}

/// `m * 10^e` with the trailing zeros of `m` moved into `e`; zero is
/// `(0, 0)`.
pub open spec fn strip_zeros(m: nat, e: int) -> (nat, int)
    decreases m,
{
    if m == 0 {
        (0, 0)
    } else if m % 10 == 0 {
        strip_zeros(m / 10, e + 1)
    } else {
        (m, e)
    }
}

/// The reading that a numeral of at most `NUMERAL_MAX_LEN` characters
/// denotes; `None` for any other text.
pub open spec fn parse_numeral(t: Seq<char>) -> Option<Reading> {
    let body = numeral_body(t);
    if t.len() <= NUMERAL_MAX_LEN && is_numeral(t) {
        let (m, e) = strip_zeros(numeral_digits(body), numeral_exponent(body));
        Some(Reading { negative: t.len() > 0 && t[0] == '-', digits: m as u128, exponent: e as i128 })
    } else {
        None
    }
}

/// `m * 10^e` in plain decimal notation, without sign: no exponent, no
/// trailing zeros after the point, `0.` before a fraction smaller than one.
pub open spec fn unsigned_text(m: nat, e: int) -> Seq<char> {
    let ds = decimal(m);
    if e >= 0 {
        ds + zeros(e as nat)
    } else {
        let s = (-e) as nat;
        if ds.len() > s {
            ds.take(ds.len() - s) + seq!['.'] + ds.skip(ds.len() - s)
        } else {
            seq!['0', '.'] + zeros((s - ds.len()) as nat) + ds
        }
    }
}

/// A reading written out in plain decimal notation, `-` first if negative.
pub open spec fn reading_text(r: Reading) -> Seq<char> {
    let sign = if r.negative { seq!['-'] } else { Seq::<char>::empty() };
    sign + unsigned_text(r.digits as nat, r.exponent as int)
}

proof fn lemma_digit_run(s: Seq<char>, k: int)
    requires
        0 <= k <= s.len(),
        forall|i: int| 0 <= i < k ==> is_digit(#[trigger] s[i]),
        k == s.len() || !is_digit(s[k]),
    ensures
        digit_run(s) == k,
    decreases k,
{
    if k > 0 {
        lemma_digit_run(s.drop_first(), k - 1);
    }
}

proof fn lemma_digits_value_prefix(s: Seq<char>, j: int)
    requires
        0 <= j <= s.len(),
    ensures
        digits_value(s) >= digits_value(s.take(j)),
    decreases s.len(),
{
    if j < s.len() {
        assert(s.take(j) =~= s.drop_last().take(j));
        lemma_digits_value_prefix(s.drop_last(), j);
    } else {
        assert(s.take(j) =~= s);
    }
}

proof fn lemma_digit_char(k: int)
    requires
        0 <= k < 10,
    ensures
        is_digit(hex_digit(k)),
        digit_value(hex_digit(k)) == k,
{
    let d = seq!['0', '1', '2', '3', '4', '5', '6', '7', '8', '9', 'A', 'B', 'C', 'D', 'E', 'F'];
    assert(hex_digit(k) == d[k]);
    if k == 0 {
    } else if k == 1 {
    } else if k == 2 {
    } else if k == 3 {
    } else if k == 4 {
    } else if k == 5 {
    } else if k == 6 {
    } else if k == 7 {
    } else if k == 8 {
    } else {
        assert(k == 9);
    }
}

proof fn lemma_decimal_digits(n: nat)
    ensures
        decimal(n).len() >= 1,
        forall|i: int| 0 <= i < decimal(n).len() ==> is_digit(#[trigger] decimal(n)[i]),
        digits_value(decimal(n)) == n,
    decreases n,
{
    let ds = decimal(n);
    lemma_digit_char((n % 10) as int);
    if n < 10 {
        assert(ds.drop_last() =~= Seq::<char>::empty());
        assert(ds.last() == hex_digit(n as int));
        assert(digits_value(ds) == digits_value(ds.drop_last()) * 10 + digit_value(ds.last()));
    } else {
        lemma_decimal_digits(n / 10);
        assert(ds.drop_last() =~= decimal(n / 10));
        assert(ds.last() == hex_digit((n % 10) as int));
        assert(digits_value(ds) == digits_value(ds.drop_last()) * 10 + digit_value(ds.last()));
        assert forall|i: int| 0 <= i < ds.len() implies is_digit(#[trigger] ds[i]) by {
            if i < ds.len() - 1 {
                assert(ds[i] == decimal(n / 10)[i]);
            }
        }
    }
}

proof fn lemma_zeros_value(k: nat)
    ensures
        digits_value(zeros(k)) == 0,
    decreases k,
{
    if k > 0 {
        lemma_zeros_value((k - 1) as nat);
        assert(zeros(k).drop_last() =~= zeros((k - 1) as nat));
    }
}

proof fn lemma_leading_zeros(k: nat, s: Seq<char>)
    ensures
        digits_value(zeros(k) + s) == digits_value(s),
    decreases s.len(),
{
    if s.len() == 0 {
        lemma_zeros_value(k);
        assert(zeros(k) + s =~= zeros(k));
    } else {
        lemma_leading_zeros(k, s.drop_last());
        assert((zeros(k) + s).drop_last() =~= zeros(k) + s.drop_last());
    }
}

proof fn lemma_all_digits_run(s: Seq<char>)
    requires
        forall|i: int| 0 <= i < s.len() ==> is_digit(#[trigger] s[i]),
    ensures
        digit_run(s) == s.len(),
{
    lemma_digit_run(s, s.len() as int);
}

proof fn lemma_pow10_grows(a: nat, b: nat)
    requires
        a <= b,
    ensures
        pow10(a) <= pow10(b),
        pow10(a) >= 1,
    decreases b,
{
    if b > a {
        lemma_pow10_grows(a, (b - 1) as nat);
    } else if a > 0 {
        lemma_pow10_grows((a - 1) as nat, (a - 1) as nat);
    }
}

proof fn lemma_digit_run_digits(s: Seq<char>)
    ensures
        digit_run(s) <= s.len(),
        forall|i: int| 0 <= i < digit_run(s) ==> is_digit(#[trigger] s[i]),
    decreases s.len(),
{
    if s.len() > 0 && is_digit(s[0]) {
        lemma_digit_run_digits(s.drop_first());
        assert forall|i: int| 0 <= i < digit_run(s) implies is_digit(#[trigger] s[i]) by {
            if i > 0 {
                assert(s[i] == s.drop_first()[i - 1]);
            }
        }
    }
}

proof fn lemma_digits_value_bound(s: Seq<char>)
    requires
        forall|i: int| 0 <= i < s.len() ==> is_digit(#[trigger] s[i]),
    ensures
        digits_value(s) < pow10(s.len()),
    decreases s.len(),
{
    if s.len() > 0 {
        let t = s.drop_last();
        assert forall|i: int| 0 <= i < t.len() implies is_digit(#[trigger] t[i]) by {
            assert(t[i] == s[i]);
        }
        lemma_digits_value_bound(t);
        assert(is_digit(s[s.len() - 1]));
        let a = digits_value(t);
        let d = digit_value(s.last());
        let p = pow10(t.len());
        assert(a * 10 + d < 10 * p) by (nonlinear_arith)
            requires
                a < p,
                d <= 9,
        ;
    }
}

proof fn lemma_pow10_limit()
    ensures
        pow10(NUMERAL_MAX_LEN as nat) == 100000000000000000000000000000000000000,
{
    reveal_with_fuel(pow10, 40);
}

proof fn lemma_trailing_zeros(s: Seq<char>, k: nat)
    ensures
        digits_value(s + zeros(k)) == digits_value(s) * pow10(k),
    decreases k,
{
    if k == 0 {
        assert(s + zeros(0) =~= s);
        assert(pow10(0) == 1);
    } else {
        lemma_trailing_zeros(s, (k - 1) as nat);
        let x = s + zeros(k);
        assert(x.drop_last() =~= s + zeros((k - 1) as nat));
        assert(x.last() == '0');
        assert(digit_value('0') == 0);
        assert(digits_value(x) == digits_value(x.drop_last()) * 10 + digit_value(x.last()));
        let a = digits_value(s);
        let p = pow10((k - 1) as nat);
        assert(a * p * 10 == a * (10 * p)) by (nonlinear_arith);
    }
}

proof fn lemma_strip_power(m: nat, e: int, k: nat)
    requires
        m != 0,
    ensures
        strip_zeros(m * pow10(k), e) == strip_zeros(m, e + k),
    decreases k,
{
    if k == 0 {
        assert(pow10(0) == 1);
        assert(m * 1 == m);
    } else {
        let p = pow10((k - 1) as nat);
        lemma_pow10_grows(0, (k - 1) as nat);
        assert(m * pow10(k) == (m * p) * 10) by (nonlinear_arith)
            requires
                pow10(k) == 10 * p,
        ;
        assert(m * p != 0) by (nonlinear_arith)
            requires
                m != 0,
                p >= 1,
        ;
        assert(((m * p) * 10) % 10 == 0 && ((m * p) * 10) / 10 == m * p) by (nonlinear_arith);
        let big = m * pow10(k);
        assert(big != 0 && big % 10 == 0 && big / 10 == m * p);
        assert(strip_zeros(big, e) == strip_zeros(m * p, e + 1));
        lemma_strip_power(m, e + 1, (k - 1) as nat);
        assert(e + 1 + (k - 1) == e + k);
    }
}

proof fn lemma_strip_wf(m: nat, e: int)
    ensures
        strip_zeros(m, e).0 <= m,
        strip_zeros(m, e).0 == 0 ==> strip_zeros(m, e).1 == 0,
        strip_zeros(m, e).0 != 0 ==> strip_zeros(m, e).0 % 10 != 0,
    decreases m,
{
    if m != 0 && m % 10 == 0 {
        lemma_strip_wf(m / 10, e + 1);
    }
}

proof fn lemma_integer_parses(m: nat, e: nat)
    requires
        m % 10 != 0 || (m == 0 && e == 0),
    ensures
        unsigned_numeral(unsigned_text(m, e as int)),
        strip_zeros(numeral_digits(unsigned_text(m, e as int)), numeral_exponent(unsigned_text(m, e as int)))
            == (m, e as int),
{
    let ds = decimal(m);
    lemma_decimal_digits(m);
    let body = unsigned_text(m, e as int);
    assert(body == ds + zeros(e));
    assert forall|i: int| 0 <= i < body.len() implies is_digit(#[trigger] body[i]) by {
        if i < ds.len() {
            assert(body[i] == ds[i]);
        } else {
            assert(body[i] == '0');
        }
    }
    lemma_all_digits_run(body);
    assert(!has_point(body));
    assert(body.take(body.len() as int) =~= body);
    assert(body.skip(body.len() as int) =~= Seq::<char>::empty());
    assert(body + Seq::<char>::empty() =~= body);
    lemma_trailing_zeros(ds, e);
    if m == 0 {
        assert(digits_value(body) == 0);
    } else {
        lemma_strip_power(m, 0, e);
    }
}

proof fn lemma_split_parses(m: nat, s: nat)
    requires
        0 < s,
        m % 10 != 0,
        decimal(m).len() > s,
    ensures
        unsigned_numeral(unsigned_text(m, -(s as int))),
        numeral_digits(unsigned_text(m, -(s as int))) == m,
        numeral_exponent(unsigned_text(m, -(s as int))) == -(s as int),
{
    let ds = decimal(m);
    lemma_decimal_digits(m);
    let k = ds.len() - s;
    let whole = ds.take(k);
    let frac = ds.skip(k);
    let body = unsigned_text(m, -(s as int));
    assert(body =~= whole + seq!['.'] + frac);
    assert forall|i: int| 0 <= i < k implies is_digit(#[trigger] body[i]) by {
        assert(body[i] == ds[i]);
    }
    assert(body[k] == '.');
    lemma_digit_run(body, k);
    assert(body.take(k) =~= whole);
    assert forall|i: int| 0 <= i < frac.len() implies is_digit(#[trigger] frac[i]) by {
        assert(frac[i] == ds[i + k]);
    }
    lemma_all_digits_run(frac);
    assert(whole + frac =~= ds);
    assert(has_point(body));
    assert(body.skip(k + 1int) =~= frac);
    assert(frac.take(frac.len() as int) =~= frac);
    assert(fraction(body) == frac);
    assert(body.skip(mantissa_len(body) as int) =~= Seq::<char>::empty());
}

proof fn lemma_fraction_parses(m: nat, s: nat)
    requires
        0 < s,
        m % 10 != 0,
        decimal(m).len() <= s,
    ensures
        unsigned_numeral(unsigned_text(m, -(s as int))),
        numeral_digits(unsigned_text(m, -(s as int))) == m,
        numeral_exponent(unsigned_text(m, -(s as int))) == -(s as int),
{
    let ds = decimal(m);
    lemma_decimal_digits(m);
    let z = (s - ds.len()) as nat;
    let frac = zeros(z) + ds;
    let body = unsigned_text(m, -(s as int));
    assert(body =~= seq!['0'] + seq!['.'] + frac);
    assert(is_digit(body[0]));
    lemma_digit_run(body, 1);
    assert(body.take(1) =~= seq!['0']);
    assert forall|i: int| 0 <= i < frac.len() implies is_digit(#[trigger] frac[i]) by {
        if i >= z {
            assert(frac[i] == ds[i - z]);
        }
    }
    lemma_all_digits_run(frac);
    lemma_leading_zeros(z + 1, ds);
    assert(seq!['0'] + frac =~= zeros(z + 1) + ds);
    assert(has_point(body));
    assert(body.skip(2) =~= frac);
    assert(frac.take(frac.len() as int) =~= frac);
    assert(fraction(body) == frac);
    assert(body.skip(mantissa_len(body) as int) =~= Seq::<char>::empty());
}

/// Writing a well-formed reading out and reading the text back gives the
/// same reading, where the text is at most `NUMERAL_MAX_LEN` long.
pub proof fn lemma_reading_text_parses(r: Reading)
    requires
        r.wf(),
        reading_text(r).len() <= NUMERAL_MAX_LEN,
    ensures
        parse_numeral(reading_text(r)) == Some(r),
{
    let m = r.digits as nat;
    let e = r.exponent as int;
    let body = unsigned_text(m, e);
    lemma_decimal_digits(m);
    if e >= 0 {
        lemma_integer_parses(m, e as nat);
    } else {
        let s = (-e) as nat;
        if decimal(m).len() > s {
            lemma_split_parses(m, s);
        } else {
            lemma_fraction_parses(m, s);
        }
        assert(strip_zeros(m, e) == (m, e));
    }
    assert(body[0] != '-') by {
        lemma_digit_char(0);
        if e >= 0 || decimal(m).len() > (-e) {
            assert(body[0] == decimal(m)[0]);
        }
    }
    let t = reading_text(r);
    if r.negative {
        assert(t.drop_first() =~= body);
    } else {
        assert(t =~= body);
    }
    assert(numeral_body(t) == body);
}

fn char_is_digit(c: char) -> (r: bool)
    ensures
        r == is_digit(c),
{
    '0' <= c && c <= '9'
}

/// The end of the run of digits in `t` that starts at `from`.
fn scan_digits(text: &str, n: usize, from: usize) -> (r: usize)
    requires
        n == text@.len(),
        from <= n,
    ensures
        from <= r <= n,
        forall|i: int| from <= i < r ==> is_digit(#[trigger] text@[i]),
        r == n || !is_digit(text@[r as int]),
{
    let mut k: usize = from;
    while k < n && char_is_digit(text.get_char(k))
        invariant
            from <= k <= n,
            n == text@.len(),
            forall|i: int| from <= i < k ==> is_digit(#[trigger] text@[i]),
        decreases n - k,
    {
        k = k + 1;
    }
    k
}

/// Extends `acc`, the value of the digits `prev`, by the digits of
/// `text[lo..hi]`; `None` where the value passes `u128::MAX`.
fn accumulate(text: &str, lo: usize, hi: usize, acc: u128, Ghost(prev): Ghost<Seq<char>>) -> (r: Option<u128>)
    requires
        lo <= hi <= text@.len(),
        acc == digits_value(prev),
        forall|i: int| lo <= i < hi ==> is_digit(#[trigger] text@[i]),
    ensures
        match r {
            Some(v) => v == digits_value(prev + text@.subrange(lo as int, hi as int)),
            None => digits_value(prev + text@.subrange(lo as int, hi as int)) > u128::MAX,
        },
{
    let ghost all = prev + text@.subrange(lo as int, hi as int);
    let mut acc = acc;
    let mut p: usize = lo;
    assert(all.take(prev.len() as int) =~= prev);
    while p < hi
        invariant
            lo <= p <= hi <= text@.len(),
            all == prev + text@.subrange(lo as int, hi as int),
            acc == digits_value(all.take(prev.len() + p - lo)),
            forall|i: int| lo <= i < hi ==> is_digit(#[trigger] text@[i]),
        decreases hi - p,
    {
        let c = text.get_char(p);
        assert(is_digit(text@[p as int]));
        let d: u128 = (c as u32 - '0' as u32) as u128;
        let ghost j: int = prev.len() + p - lo;
        assert(all[j] == c);
        assert(all.take(j + 1).drop_last() =~= all.take(j));
        if acc > (u128::MAX - d) / 10 {
            proof {
                assert(acc * 10 + d > u128::MAX) by (nonlinear_arith)
                    requires
                        acc > (u128::MAX - d) / 10,
                        d <= 9,
                ;
                lemma_digits_value_prefix(all, j + 1);
            }
            return None;
        }
        assert(acc * 10 + d <= u128::MAX) by (nonlinear_arith)
            requires
                acc <= (u128::MAX - d) / 10,
                d <= 9,
        ;
        acc = acc * 10 + d;
        p = p + 1;
    }
    assert(all.take(prev.len() + hi - lo) =~= all);
    Some(acc)
}

/// Reads the exponent that `text[from..]` holds (see `exponent_of`);
/// `None` where there is none of that form or it exceeds `u128::MAX`.
fn parse_exponent(text: &str, n: usize, from: usize) -> (r: Option<(bool, u128)>)
    requires
        n == text@.len(),
        from <= n,
    ensures
        match exponent_of(text@.subrange(from as int, n as int)) {
            Some((neg, x)) => if x <= u128::MAX {
                r == Some((neg, x as u128))
            } else {
                r is None
            },
            None => r is None,
        },
{
    let ghost tail = text@.subrange(from as int, n as int);
    if from == n {
        return Some((false, 0));
    }
    let c = text.get_char(from);
    assert(tail[0] == c);
    if c != 'e' && c != 'E' {
        return None;
    }
    let ghost b = tail.drop_first();
    assert(b =~= text@.subrange(from + 1, n as int));
    let mut d0: usize = from + 1;
    let mut neg = false;
    if d0 < n {
        let sign = text.get_char(d0);
        assert(b[0] == sign);
        if sign == '-' || sign == '+' {
            neg = sign == '-';
            d0 = d0 + 1;
        }
    }
    let ghost d = text@.subrange(d0 as int, n as int);
    assert(d =~= (if d0 == from + 2 { b.drop_first() } else { b }));
    let e = scan_digits(text, n, d0);
    proof {
        assert forall|i: int| 0 <= i < e - d0 implies is_digit(#[trigger] d[i]) by {
            assert(d[i] == text@[i + d0]);
        }
        if e < n {
            assert(d[e - d0] == text@[e as int]);
        }
        lemma_digit_run(d, e - d0);
    }
    if e < n || e == d0 {
        return None;
    }
    let v = accumulate(text, d0, n, 0, Ghost(Seq::empty()));
    assert(Seq::<char>::empty() + d =~= d);
    match v {
        Some(x) => Some((neg, x)),
        None => None,
    }
}

/// Splits `text[b0..]` into its digits `[b0, k)` and, after a point, its
/// fraction `[lo, j)` (`lo == j == k` where there is no point).
fn scan_mantissa(text: &str, n: usize, b0: usize, Ghost(body): Ghost<Seq<char>>) -> (r: (usize, usize, usize))
    requires
        n == text@.len(),
        b0 <= n,
        body == text@.skip(b0 as int),
    ensures
        b0 <= r.0 <= r.1 <= r.2 <= n,
        digit_run(body) == r.0 - b0,
        has_point(body) <==> r.1 > r.0,
        !has_point(body) ==> r.1 == r.0 && r.2 == r.0,
        has_point(body) ==> r.1 == r.0 + 1,
        fraction(body) == text@.subrange(r.1 as int, r.2 as int),
        mantissa_len(body) == r.2 - b0,
        body.take(r.0 - b0) == text@.subrange(b0 as int, r.0 as int),
        body.skip(mantissa_len(body) as int) == text@.subrange(r.2 as int, n as int),
        forall|i: int| b0 <= i < r.0 ==> is_digit(#[trigger] text@[i]),
        forall|i: int| r.1 <= i < r.2 ==> is_digit(#[trigger] text@[i]),
{
    let ghost t = text@;
    let k = scan_digits(text, n, b0);
    proof {
        assert forall|i: int| 0 <= i < k - b0 implies is_digit(#[trigger] body[i]) by {
            assert(body[i] == t[i + b0]);
        }
        if k < n {
            assert(body[k - b0] == t[k as int]);
        }
        lemma_digit_run(body, k - b0);
    }
    assert(body.take(k - b0) =~= t.subrange(b0 as int, k as int));
    let point = k < n && text.get_char(k) == '.';
    if point {
        let j = scan_digits(text, n, k + 1);
        let ghost after = body.skip(k - b0 + 1);
        assert(after =~= t.subrange(k + 1, n as int));
        proof {
            assert forall|i: int| 0 <= i < j - k - 1 implies is_digit(#[trigger] after[i]) by {
                assert(after[i] == t[i + k + 1]);
            }
            if j < n {
                assert(after[j - k - 1] == t[j as int]);
            }
            lemma_digit_run(after, j - k - 1);
        }
        assert(fraction(body) =~= t.subrange(k + 1, j as int));
        assert(body.skip(mantissa_len(body) as int) =~= t.subrange(j as int, n as int));
        (k, k + 1, j)
    } else {
        assert(fraction(body) =~= t.subrange(k as int, k as int));
        assert(body.skip(mantissa_len(body) as int) =~= t.subrange(k as int, n as int));
        (k, k, k)
    }
}

impl Reading {
    /// Well-formed: normalised, as `parse` makes it.
    pub open spec fn wf(&self) -> bool {
        &&& (self.digits == 0 ==> self.exponent == 0)
        &&& (self.digits != 0 ==> self.digits % 10 != 0)
    }

    /// Reads a numeral `-?D+(.D+)?([eE][+-]?D+)?` of at most
    /// `NUMERAL_MAX_LEN` characters, for instance `"5.1"`, `"-3"`,
    /// `"1.5e+20"` or `"10.650"` (the same reading as `"10.65"`).
    pub fn parse(text: &str) -> (r: Option<Reading>)
        ensures
            r == parse_numeral(text@),
            r matches Some(x) ==> x.wf(),
    {
        let ghost t = text@;
        let n = text.unicode_len();
        if n > NUMERAL_MAX_LEN {
            return None;
        }
        let neg = n > 0 && text.get_char(0) == '-';
        let b0: usize = if neg { 1 } else { 0 };
        let ghost body = numeral_body(t);
        assert(body =~= t.skip(b0 as int));
        let (k, lo, j) = scan_mantissa(text, n, b0, Ghost(body));
        if k == b0 || (lo > k && j == lo) {
            return None;
        }
        let ghost whole = body.take(k - b0);
        let ghost frac = fraction(body);
        let ghost tail = t.subrange(j as int, n as int);
        let (eneg, x) = match parse_exponent(text, n, j) {
            Some(e) => e,
            None => {
                proof {
                    Reading::lemma_exponent_small(tail);
                    lemma_pow10_limit();
                    lemma_pow10_grows(tail.len(), NUMERAL_MAX_LEN as nat);
                }
                return None;
            },
        };
        proof {
            Reading::lemma_exponent_small(tail);
            lemma_pow10_limit();
            lemma_pow10_grows(tail.len(), NUMERAL_MAX_LEN as nat);
            assert forall|i: int| 0 <= i < (whole + frac).len() implies is_digit(#[trigger] (whole + frac)[i]) by {
                if i < whole.len() {
                    assert((whole + frac)[i] == t[i + b0]);
                } else {
                    assert((whole + frac)[i] == t[i - whole.len() + lo]);
                }
            }
            lemma_digits_value_bound(whole + frac);
            lemma_pow10_grows((whole + frac).len(), NUMERAL_MAX_LEN as nat);
            lemma_digits_value_prefix(whole + frac, whole.len() as int);
            assert((whole + frac).take(whole.len() as int) =~= whole);
        }
        let w = match accumulate(text, b0, k, 0, Ghost(Seq::empty())) {
            Some(w) => w,
            None => {
                assert(Seq::<char>::empty() + t.subrange(b0 as int, k as int) =~= whole);
                return None;
            },
        };
        assert(Seq::<char>::empty() + t.subrange(b0 as int, k as int) =~= whole);
        let raw = match accumulate(text, lo, j, w, Ghost(whole)) {
            Some(v) => v,
            None => {
                return None;
            },
        };
        assert(raw == numeral_digits(body));
        let f: usize = j - lo;
        let e0: i128 = if eneg { 0 - (x as i128) - (f as i128) } else { (x as i128) - (f as i128) };
        assert(e0 == numeral_exponent(body));
        assert(raw < pow10(NUMERAL_MAX_LEN as nat));
        Some(Reading::from_parts(neg, raw, e0))
    }

    /// The normalised reading `raw * 10^e0`, negative where `neg`.
    fn from_parts(neg: bool, raw: u128, e0: i128) -> (r: Reading)
        requires
            raw < pow10(NUMERAL_MAX_LEN as nat),
            -100000000000000000000000000000000000100 <= e0 <= 100000000000000000000000000000000000000,
        ensures
            ({
                let (m, e) = strip_zeros(raw as nat, e0 as int);
                r == Reading { negative: neg, digits: m as u128, exponent: e as i128 }
            }),
            r.wf(),
    {
        proof {
            lemma_strip_wf(raw as nat, e0 as int);
            lemma_pow10_limit();
        }
        if raw == 0 {
            return Reading { negative: neg, digits: 0, exponent: 0 };
        }
        let mut m: u128 = raw;
        let mut c: u32 = 0;
        assert(pow10(0) == 1);
        assert(m * pow10(0) == raw);
        while m % 10 == 0
            invariant
                m != 0,
                raw < pow10(NUMERAL_MAX_LEN as nat),
                pow10(NUMERAL_MAX_LEN as nat) == 100000000000000000000000000000000000000,
                m * pow10(c as nat) == raw,
                c < NUMERAL_MAX_LEN,
                -100000000000000000000000000000000000100 <= e0 <= 100000000000000000000000000000000000000,
                strip_zeros(m as nat, e0 + c) == strip_zeros(raw as nat, e0 as int),
            decreases m,
        {
            proof {
                assert(pow10((c + 1) as nat) == 10 * pow10(c as nat));
                assert((m / 10) * pow10((c + 1) as nat) == raw) by (nonlinear_arith)
                    requires
                        m % 10 == 0,
                        m * pow10(c as nat) == raw,
                        pow10((c + 1) as nat) == 10 * pow10(c as nat),
                ;
                assert(m / 10 != 0);
                lemma_pow10_grows(0, (c + 1) as nat);
                assert(pow10((c + 1) as nat) <= raw) by (nonlinear_arith)
                    requires
                        m / 10 >= 1,
                        (m / 10) * pow10((c + 1) as nat) == raw,
                        pow10((c + 1) as nat) >= 1,
                ;
                if c + 1 >= NUMERAL_MAX_LEN {
                    lemma_pow10_grows(NUMERAL_MAX_LEN as nat, (c + 1) as nat);
                }
            }
            m = m / 10;
            c = c + 1;
        }
        Reading { negative: neg, digits: m, exponent: e0 + c as i128 }
    }

    proof fn lemma_exponent_small(tail: Seq<char>)
        ensures
            exponent_of(tail) matches Some((_, x)) ==> x < pow10(tail.len()),
    {
        if tail.len() > 0 && (tail[0] == 'e' || tail[0] == 'E') {
            let b = tail.drop_first();
            let signed = b.len() > 0 && (b[0] == '-' || b[0] == '+');
            let d = if signed { b.drop_first() } else { b };
            if d.len() > 0 && digit_run(d) == d.len() {
                lemma_digit_run_digits(d);
                lemma_digits_value_bound(d);
                lemma_pow10_grows(d.len(), tail.len());
            }
        } else if tail.len() == 0 {
            assert(pow10(0) == 1);
        }
    }

    /// Appends the reading in plain decimal notation to `out`.
    pub fn push_text(&self, out: &mut String)
        ensures
            final(out)@ == old(out)@ + reading_text(*self),
    {
        let ghost start = out@;
        if self.negative {
            out.append("-");
            proof {
                reveal_strlit("-");
            }
        }
        let ghost signed = out@;
        let mut ds = String::new();
        push_decimal(&mut ds, self.digits);
        assert(ds@ =~= decimal(self.digits as nat));
        let len = ds.unicode_len();
        if self.exponent >= 0 {
            out.append(ds.as_str());
            push_zeros(out, self.exponent as u128);
        } else {
            let s: u128 = (0 - (self.exponent + 1)) as u128 + 1;
            if len as u128 > s {
                let cut = len - s as usize;
                out.append(ds.as_str().substring_char(0, cut));
                out.append(".");
                proof {
                    reveal_strlit(".");
                }
                out.append(ds.as_str().substring_char(cut, len));
            } else {
                out.append("0.");
                proof {
                    reveal_strlit("0.");
                }
                push_zeros(out, s - len as u128);
                out.append(ds.as_str());
            }
        }
        assert(out@ =~= start + reading_text(*self));
    }
}

/// Two readings agree in digits and exponent, and in sign unless they are
/// zero: for well-formed readings, they stand for the same number.
pub open spec fn same_value(a: Reading, b: Reading) -> bool {
    a.digits == b.digits && a.exponent == b.exponent && (a.negative == b.negative || a.digits == 0)
}

impl PartialEq for Reading {
    fn eq(&self, other: &Reading) -> (r: bool) {
        self.digits == other.digits && self.exponent == other.exponent && (self.negative
            == other.negative || self.digits == 0)
    }
}

impl vstd::std_specs::cmp::PartialEqSpecImpl for Reading {
    open spec fn obeys_eq_spec() -> bool {
        true
    }

    open spec fn eq_spec(&self, other: &Reading) -> bool {
        same_value(*self, *other)
    }
}

/// Appends `k` zeros to `out`.
fn push_zeros(out: &mut String, k: u128)
    ensures
        final(out)@ == old(out)@ + zeros(k as nat),
{
    let mut i: u128 = 0;
    while i < k
        invariant
            i <= k,
            out@ == old(out)@ + zeros(i as nat),
        decreases k - i,
    {
        out.append("0");
        proof {
            reveal_strlit("0");
        }
        assert(zeros(i as nat).push('0') =~= zeros((i + 1) as nat));
        i = i + 1;
    }
}

} // verus!
