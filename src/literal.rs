//! Which texts are numeric literals: the syntax that std's `f64::from_str`
//! documents as accepted. Evaluation checks each literal against it, so that
//! a malformed literal fails where it stands in the tree.
use vstd::prelude::*;
use vstd::string::is_ascii_spec_bytes;

verus! {

/// ASCII codes of the characters the syntax uses.
pub const ZERO: u8 = 48;
pub const NINE: u8 = 57;
pub const PLUS: u8 = 43;
pub const MINUS: u8 = 45;
pub const POINT: u8 = 46;
pub const LOWER_E: u8 = 101;
pub const UPPER_E: u8 = 69;

pub open spec fn is_digit(c: u8) -> bool {
    ZERO <= c <= NINE
}

pub open spec fn is_sign(c: u8) -> bool {
    c == PLUS || c == MINUS
}

/// A character that can stand in the part of a decimal before its exponent.
pub open spec fn is_mantissa_char(c: u8) -> bool {
    is_digit(c) || c == POINT
}

/// `Digit+ | Digit+ '.' Digit* | Digit* '.' Digit+`: digits with at most
/// one point, and at least one digit.
pub open spec fn is_mantissa(m: Seq<u8>) -> bool {
    &&& forall|i: int| 0 <= i < m.len() ==> is_mantissa_char(#[trigger] m[i])
    &&& forall|i: int, j: int|
        0 <= i < m.len() && 0 <= j < m.len() && #[trigger] m[i] == POINT && #[trigger] m[j] == POINT
            ==> i == j
    &&& exists|i: int| 0 <= i < m.len() && is_digit(#[trigger] m[i])
}

/// What follows the `e` of an exponent and its optional sign.
pub open spec fn exponent_digits(x: Seq<u8>) -> Seq<u8> {
    if is_sign(x[1]) {
        x.skip(2)
    } else {
        x.skip(1)
    }
}

/// `('e' | 'E') Sign? Digit+`
pub open spec fn is_exponent(x: Seq<u8>) -> bool {
    &&& x.len() >= 2
    &&& (x[0] == LOWER_E || x[0] == UPPER_E)
    &&& exponent_digits(x).len() >= 1
    &&& forall|i: int|
        0 <= i < exponent_digits(x).len() ==> is_digit(#[trigger] exponent_digits(x)[i])
}

/// A mantissa, followed by an exponent or by nothing.
pub open spec fn is_decimal(d: Seq<u8>) -> bool {
    exists|k: int|
        0 <= k <= d.len() && is_mantissa(#[trigger] d.take(k)) && (k == d.len() || is_exponent(
            d.skip(k),
        ))
}

/// `d` is the lower-case ASCII word `w`, in any mix of cases.
pub open spec fn is_word(d: Seq<u8>, w: Seq<u8>) -> bool {
    d.len() == w.len() && forall|i: int| 0 <= i < d.len() ==> d[i] == w[i] || d[i] + 32 == w[i]
}

/// What follows an optional sign.
pub open spec fn unsigned_part(b: Seq<u8>) -> Seq<u8> {
    if b.len() > 0 && is_sign(b[0]) {
        b.skip(1)
    } else {
        b
    }
}

/// `Sign? ('inf' | 'infinity' | 'nan' | Decimal)`, over ASCII bytes; the
/// three words are given by their lower-case codes.
pub open spec fn is_float_syntax(b: Seq<u8>) -> bool {
    let d = unsigned_part(b);
    is_word(d, seq![105u8, 110, 102]) || is_word(
        d,
        seq![105u8, 110, 102, 105, 110, 105, 116, 121],
    ) || is_word(d, seq![110u8, 97, 110]) || is_decimal(d)
}

/// Whether `s` is a numeric literal. The syntax is ASCII-only.
pub open spec fn is_float_literal(s: Seq<char>) -> bool {
    vstd::utf8::is_ascii_chars(s) && is_float_syntax(Seq::new(s.len(), |i: int| s[i] as u8))
}

/// A decimal splits at its first character that cannot stand in a mantissa.
proof fn lemma_decimal_split(d: Seq<u8>, k: int)
    requires
        0 <= k <= d.len(),
        forall|i: int| 0 <= i < k ==> is_mantissa_char(#[trigger] d[i]),
        k == d.len() || !is_mantissa_char(d[k]),
    ensures
        is_decimal(d) == (is_mantissa(d.take(k)) && (k == d.len() || is_exponent(d.skip(k)))),
{
    if is_decimal(d) {
        let j = choose|j: int|
            0 <= j <= d.len() && is_mantissa(#[trigger] d.take(j)) && (j == d.len() || is_exponent(
                d.skip(j),
            ));
        if j < k {
            assert(d.skip(j)[0] == d[j]);
            assert(is_mantissa_char(d[j]));
        } else if j > k {
            assert(d.take(j)[k] == d[k]);
            assert(is_mantissa_char(d.take(j)[k]));
        }
    }
    if is_mantissa(d.take(k)) && (k == d.len() || is_exponent(d.skip(k))) {
        assert(0 <= k <= d.len() && is_mantissa(d.take(k)));
    }
}

/// Whether `b` from `start` on is an exponent.
fn exponent_at(b: &[u8], start: usize) -> (r: bool)
    requires
        start <= b@.len(),
    ensures
        r == is_exponent(b@.skip(start as int)),
{
    let ghost x = b@.skip(start as int);
    let n = b.len();
    if n - start < 2 || !(b[start] == LOWER_E || b[start] == UPPER_E) {
        return false;
    }
    let mut i: usize = if b[start + 1] == PLUS || b[start + 1] == MINUS {
        start + 2
    } else {
        start + 1
    };
    let ghost r = b@.skip(i as int);
    assert(r =~= exponent_digits(x));
    if i >= n {
        return false;
    }
    let ghost first = i;
    while i < n
        invariant
            first <= i <= n,
            n == b@.len(),
            r == b@.skip(first as int),
            r == exponent_digits(b@.skip(start as int)),
            forall|p: int| first <= p < i ==> is_digit(#[trigger] b@[p]),
        decreases n - i,
    {
        if !(ZERO <= b[i] && b[i] <= NINE) {
            assert(r[i - first] == b@[i as int]);
            assert(!is_digit(r[i - first]));
            return false;
        }
        i = i + 1;
    }
    assert forall|p: int| 0 <= p < r.len() implies is_digit(#[trigger] r[p]) by {
        assert(r[p] == b@[first + p]);
    }
    true
}

/// Whether `b` from `start` on is a decimal.
fn decimal_at(b: &[u8], start: usize) -> (r: bool)
    requires
        start <= b@.len(),
    ensures
        r == is_decimal(b@.skip(start as int)),
{
    let n = b.len();
    let ghost d = b@.skip(start as int);
    let mut i: usize = start;
    let mut digit_seen = false;
    let mut dot_seen = false;
    let mut one_dot = true;
    while i < n && ((ZERO <= b[i] && b[i] <= NINE) || b[i] == POINT)
        invariant
            start <= i <= n,
            n == b@.len(),
            forall|p: int| start <= p < i ==> is_mantissa_char(#[trigger] b@[p]),
            digit_seen == exists|p: int| start <= p < i && is_digit(#[trigger] b@[p]),
            dot_seen == exists|p: int| start <= p < i && #[trigger] b@[p] == POINT,
            one_dot == forall|p: int, q: int|
                start <= p < i && start <= q < i && #[trigger] b@[p] == POINT && #[trigger] b@[q]
                    == POINT ==> p == q,
        decreases n - i,
    {
        if b[i] == POINT {
            if dot_seen {
                one_dot = false;
            }
            dot_seen = true;
        } else {
            digit_seen = true;
        }
        i = i + 1;
    }
    let ghost k = i - start;
    let ghost m = d.take(k);
    assert forall|j: int| 0 <= j < k implies #[trigger] m[j] == b@[start + j] && d[j] == b@[start
        + j] by {}
    assert forall|j: int| 0 <= j < k implies is_mantissa_char(#[trigger] d[j]) by {
        assert(d[j] == b@[start + j]);
    }
    proof {
        if k < d.len() {
            assert(d[k] == b@[i as int]);
        }
        lemma_decimal_split(d, k);
        if digit_seen {
            let p = choose|p: int| start <= p < i && is_digit(#[trigger] b@[p]);
            assert(m[p - start] == b@[p]);
        }
        if is_mantissa(m) {
            let j = choose|j: int| 0 <= j < m.len() && is_digit(#[trigger] m[j]);
            assert(b@[start + j] == m[j]);
            assert forall|p: int, q: int|
                start <= p < i && start <= q < i && #[trigger] b@[p] == POINT && #[trigger] b@[q]
                    == POINT implies p == q by {
                assert(m[p - start] == b@[p]);
                assert(m[q - start] == b@[q]);
            }
        }
        if one_dot {
            assert forall|p: int, q: int|
                0 <= p < m.len() && 0 <= q < m.len() && #[trigger] m[p] == POINT && #[trigger] m[q]
                    == POINT implies p == q by {
                assert(b@[start + p] == m[p]);
                assert(b@[start + q] == m[q]);
            }
        }
    }
    let mantissa_ok = one_dot && digit_seen;
    assert(mantissa_ok == is_mantissa(m));
    if i == n {
        mantissa_ok
    } else {
        assert(d.skip(k) =~= b@.skip(i as int));
        mantissa_ok && exponent_at(b, i)
    }
}

/// Whether `b` from `start` on is the lower-case word `w`, in any mix of cases.
fn word_at(b: &[u8], start: usize, w: &Vec<u8>) -> (r: bool)
    requires
        start <= b@.len(),
    ensures
        r == is_word(b@.skip(start as int), w@),
{
    let ghost d = b@.skip(start as int);
    if b.len() - start != w.len() {
        return false;
    }
    let mut i: usize = 0;
    while i < w.len()
        invariant
            i <= w@.len(),
            d.len() == w@.len(),
            d == b@.skip(start as int),
            start <= b@.len(),
            b@.len() - start == w@.len(),
            b@.len() == b.len(),
            forall|j: int| 0 <= j < i ==> #[trigger] d[j] == w@[j] || d[j] + 32 == w@[j],
        decreases w@.len() - i,
    {
        let c = b[start + i];
        assert(c == d[i as int]);
        if !(c == w[i] || c as u16 + 32 == w[i] as u16) {
            return false;
        }
        i = i + 1;
    }
    true
}

/// Whether `text` is a numeric literal: one that std's `f64::from_str`
/// accepts.
pub fn is_number_literal(text: &str) -> (r: bool)
    ensures
        r == is_float_literal(text@),
{
    if !text.is_ascii() {
        return false;
    }
    let b = text.as_bytes();
    proof {
        is_ascii_spec_bytes(text);
        assert(b@ =~= Seq::new(text@.len(), |i: int| text@[i] as u8));
    }
    let start: usize = if b.len() > 0 && (b[0] == PLUS || b[0] == MINUS) {
        1
    } else {
        0
    };
    assert(unsigned_part(b@) =~= b@.skip(start as int));
    let inf: Vec<u8> = vec![105, 110, 102];
    let infinity: Vec<u8> = vec![105, 110, 102, 105, 110, 105, 116, 121];
    let nan: Vec<u8> = vec![110, 97, 110];
    assert(inf@ =~= seq![105u8, 110, 102]);
    assert(infinity@ =~= seq![105u8, 110, 102, 105, 110, 105, 116, 121]);
    assert(nan@ =~= seq![110u8, 97, 110]);
    word_at(b, start, &inf) || word_at(b, start, &infinity) || word_at(b, start, &nan)
        || decimal_at(b, start)
}

} // verus!
