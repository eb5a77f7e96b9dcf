//! Check-digit validators: Luhn, IBAN (ISO 7064 mod 97-10) and the control
//! letter of Spanish national and foreigner identifiers.
//!
//! Each validator is total: it answers `true` or `false` for every string.

use vstd::prelude::*;
use vstd::arithmetic::div_mod::{
    lemma_add_mod_noop, lemma_fundamental_div_mod, lemma_mod_multiples_basic, lemma_mul_mod_noop_left,
    lemma_mul_mod_noop_right,
};
use crate::text::{
    ascii_upper, chars_of, digit_value, is_ascii_alnum, is_ascii_digit, to_ascii_upper,
};

verus! {

// ----------------------------------------------------------------------
// Luhn
// ----------------------------------------------------------------------

/// The values of the ASCII digits of `s`, in order; other characters are skipped.
pub open spec fn ascii_digits(s: Seq<char>) -> Seq<u8>
    decreases s.len(),
{
    if s.len() == 0 {
        seq![]
    } else {
        let p = ascii_digits(s.drop_last());
        if is_ascii_digit(s.last()) {
            p.push(digit_value(s.last()) as u8)
        } else {
            p
        }
    }
}

/// A digit's contribution to the Luhn sum; a doubled digit above 9 loses 9.
pub open spec fn luhn_term(d: int, doubled: bool) -> int {
    if doubled {
        if 2 * d > 9 {
            2 * d - 9
        } else {
            2 * d
        }
    } else {
        d
    }
}

/// The Luhn sum over the first `k` of the digits `ds`: a digit is doubled
/// when its position, counted from the rightmost digit of `ds` (which has
/// position 0), is odd.
pub open spec fn luhn_sum(ds: Seq<u8>, k: int) -> int
    decreases k,
{
    if k <= 0 {
        0
    } else {
        luhn_sum(ds, k - 1) + luhn_term(ds[k - 1] as int, (ds.len() - k) % 2 == 1)
    }
}

/// `s` holds at least one digit and its digits pass the Luhn check.
pub open spec fn luhn_valid(s: Seq<char>) -> bool {
    let ds = ascii_digits(s);
    ds.len() > 0 && luhn_sum(ds, ds.len() as int) % 10 == 0
}

/// Keeps the ASCII digits of `chars`.
fn digits_only(chars: &Vec<char>) -> (r: Vec<u8>)
    ensures
        r@ == ascii_digits(chars@),
        forall|j: int| 0 <= j < r@.len() ==> r@[j] <= 9,
{
    let mut out: Vec<u8> = Vec::new();
    let mut i: usize = 0;
    while i < chars.len()
        invariant
            i <= chars.len(),
            out@ == ascii_digits(chars@.take(i as int)),
            forall|j: int| 0 <= j < out@.len() ==> out@[j] <= 9,
        decreases chars.len() - i,
    {
        let c = chars[i];
        assert(chars@.take(i + 1).drop_last() == chars@.take(i as int));
        if '0' <= c && c <= '9' {
            out.push(((c as u32) - ('0' as u32)) as u8);
        }
        i += 1;
    }
    assert(chars@.take(chars.len() as int) == chars@);
    out
}

/// Luhn check over the ASCII digits of `number`; `false` when it holds none.
pub fn validate_luhn(number: &str) -> (r: bool)
    ensures
        r == luhn_valid(number@),
{
    let chars = chars_of(number);
    let digits = digits_only(&chars);
    let n = digits.len();
    if n == 0 {
        return false;
    }
    let mut acc: u32 = 0;
    let mut k: usize = 0;
    while k < n
        invariant
            n == digits@.len(),
            k <= n,
            forall|j: int| 0 <= j < digits@.len() ==> digits@[j] <= 9,
            acc < 10,
            acc as int == luhn_sum(digits@, k as int) % 10,
        decreases n - k,
    {
        let d = digits[k] as u32;
        let t: u32 = if (n - 1 - k) % 2 == 1 {
            let dd = d * 2;
            if dd > 9 {
                dd - 9
            } else {
                dd
            }
        } else {
            d
        };
        assert(t as int == luhn_term(digits@[k as int] as int, (n - (k + 1)) % 2 == 1));
        proof {
            lemma_add_mod_noop(luhn_sum(digits@, k as int), t as int, 10);
        }
        acc = (acc + t) % 10;
        k += 1;
    }
    acc == 0
}

proof fn lemma_ascii_digits_update(s: Seq<char>, i: int, d: char)
    requires
        0 <= i < s.len(),
        is_ascii_digit(s[i]),
        is_ascii_digit(d),
    ensures
        ascii_digits(s.update(i, d)) == ascii_digits(s).update(
            ascii_digits(s.take(i)).len() as int,
            digit_value(d) as u8,
        ),
        ascii_digits(s.take(i)).len() < ascii_digits(s).len(),
        ascii_digits(s)[ascii_digits(s.take(i)).len() as int] == digit_value(s[i]) as u8,
    decreases s.len(),
{
    let t = s.update(i, d);
    if i == s.len() - 1 {
        assert(t.drop_last() =~= s.drop_last());
        assert(s.take(i) =~= s.drop_last());
    } else {
        lemma_ascii_digits_update(s.drop_last(), i, d);
        assert(t.drop_last() =~= s.drop_last().update(i, d));
        assert(s.drop_last().take(i) =~= s.take(i));
        lemma_ascii_digits_prefix_len(s.drop_last());
    }
}

proof fn lemma_ascii_digits_prefix_len(s: Seq<char>)
    ensures
        ascii_digits(s).len() <= s.len(),
        forall|j: int| 0 <= j < ascii_digits(s).len() ==> ascii_digits(s)[j] <= 9,
    decreases s.len(),
{
    if s.len() > 0 {
        lemma_ascii_digits_prefix_len(s.drop_last());
    }
}

proof fn lemma_luhn_sum_update(ds: Seq<u8>, m: int, x: u8, k: int)
    requires
        0 <= m < ds.len(),
        0 <= k <= ds.len(),
    ensures
        luhn_sum(ds.update(m, x), k) - luhn_sum(ds, k) == if k > m {
            luhn_term(x as int, (ds.len() - (m + 1)) % 2 == 1) - luhn_term(
                ds[m] as int,
                (ds.len() - (m + 1)) % 2 == 1,
            )
        } else {
            0
        },
    decreases k,
{
    if k > 0 {
        lemma_luhn_sum_update(ds, m, x, k - 1);
    }
}

/// Changing one digit of a string that passes the Luhn check into another
/// digit makes it fail.
pub proof fn lemma_luhn_detects_one_digit(s: Seq<char>, i: int, d: char)
    requires
        luhn_valid(s),
        0 <= i < s.len(),
        is_ascii_digit(s[i]),
        is_ascii_digit(d),
        d != s[i],
    ensures
        !luhn_valid(s.update(i, d)),
{
    let ds = ascii_digits(s);
    let m = ascii_digits(s.take(i)).len() as int;
    let x = digit_value(d) as u8;
    lemma_ascii_digits_update(s, i, d);
    lemma_luhn_sum_update(ds, m, x, ds.len() as int);
    let dbl = (ds.len() - (m + 1)) % 2 == 1;
    let a = x as int;
    let b = ds[m] as int;
    assert(0 <= a <= 9 && 0 <= b <= 9 && a != b);
    let diff = luhn_term(a, dbl) - luhn_term(b, dbl);
    assert(-9 <= diff <= 9 && diff != 0);
    let total = luhn_sum(ds, ds.len() as int);
    assert((total + diff) % 10 != 0);
}

// ----------------------------------------------------------------------
// Spanish identifier control letter
// ----------------------------------------------------------------------

/// The control letters, indexed by the identifier's number modulo 23.
pub open spec fn control_letters() -> Seq<char> {
    seq![
        'T', 'R', 'W', 'A', 'G', 'M', 'Y', 'F', 'P', 'D', 'X', 'B',
        'N', 'J', 'Z', 'S', 'Q', 'V', 'H', 'L', 'C', 'K', 'E',
    ]
}

/// A foreigner identifier's leading letter, in either case.
pub open spec fn is_foreigner_lead(c: char) -> bool {
    ascii_upper(c) == 'X' || ascii_upper(c) == 'Y' || ascii_upper(c) == 'Z'
}

/// The digit that stands for the leading character: itself, or X=0, Y=1, Z=2.
pub open spec fn lead_value(c: char) -> int {
    if is_ascii_digit(c) {
        digit_value(c)
    } else if ascii_upper(c) == 'X' {
        0
    } else if ascii_upper(c) == 'Y' {
        1
    } else {
        2
    }
}

/// The decimal number written by the digits `ds`.
pub open spec fn decimal_value(ds: Seq<char>) -> int
    decreases ds.len(),
{
    if ds.len() == 0 {
        0
    } else {
        decimal_value(ds.drop_last()) * 10 + digit_value(ds.last())
    }
}

/// The base number of a nine-character identifier: the lead value followed
/// by the seven digits at positions 1 to 7.
pub open spec fn identifier_number(s: Seq<char>) -> int {
    lead_value(s[0]) * 10000000 + decimal_value(s.subrange(1, 8))
}

/// `s` is a Spanish national identifier (eight digits and a letter) or a
/// foreigner identifier (X, Y or Z, seven digits and a letter) whose final
/// letter, in either case, is the control letter of its number.
pub open spec fn spanish_id_valid(s: Seq<char>) -> bool {
    &&& s.len() == 9
    &&& (is_ascii_digit(s[0]) || is_foreigner_lead(s[0]))
    &&& forall|i: int| 1 <= i < 8 ==> is_ascii_digit(#[trigger] s[i])
    &&& ascii_upper(s[8]) == control_letters()[identifier_number(s) % 23]
}

fn control_letter(i: u32) -> (c: char)
    requires
        i < 23,
    ensures
        c == control_letters()[i as int],
{
    let table: [char; 23] = [
        'T', 'R', 'W', 'A', 'G', 'M', 'Y', 'F', 'P', 'D', 'X', 'B',
        'N', 'J', 'Z', 'S', 'Q', 'V', 'H', 'L', 'C', 'K', 'E',
    ];
    assert(table@ == control_letters());
    table[i as usize]
}

proof fn lemma_decimal_value_len_bound(ds: Seq<char>)
    requires
        forall|i: int| 0 <= i < ds.len() ==> is_ascii_digit(#[trigger] ds[i]),
    ensures
        0 <= decimal_value(ds) < pow10(ds.len() as nat),
    decreases ds.len(),
{
    if ds.len() > 0 {
        lemma_decimal_value_len_bound(ds.drop_last());
    }
}

proof fn lemma_pow10_monotonic(a: nat, b: nat)
    requires
        a <= b,
    ensures
        1 <= pow10(a) <= pow10(b),
    decreases b,
{
    if a < b {
        lemma_pow10_monotonic(a, (b - 1) as nat);
    } else if a > 0 {
        lemma_pow10_monotonic((a - 1) as nat, (a - 1) as nat);
    }
}

pub open spec fn pow10(n: nat) -> int
    decreases n,
{
    if n == 0 {
        1
    } else {
        10 * pow10((n - 1) as nat)
    }
}

proof fn lemma_control_letters_distinct(a: int, b: int)
    requires
        0 <= a < 23,
        0 <= b < 23,
        a != b,
    ensures
        control_letters()[a] != control_letters()[b],
{
    let t = control_letters();
    assert(t[0] == 'T');
    assert(t[1] == 'R');
    assert(t[2] == 'W');
    assert(t[3] == 'A');
    assert(t[4] == 'G');
    assert(t[5] == 'M');
    assert(t[6] == 'Y');
    assert(t[7] == 'F');
    assert(t[8] == 'P');
    assert(t[9] == 'D');
    assert(t[10] == 'X');
    assert(t[11] == 'B');
    assert(t[12] == 'N');
    assert(t[13] == 'J');
    assert(t[14] == 'Z');
    assert(t[15] == 'S');
    assert(t[16] == 'Q');
    assert(t[17] == 'V');
    assert(t[18] == 'H');
    assert(t[19] == 'L');
    assert(t[20] == 'C');
    assert(t[21] == 'K');
    assert(t[22] == 'E');
}

proof fn lemma_decimal_value_update(u: Seq<char>, q: int, d: char)
    requires
        0 <= q < u.len(),
        forall|j: int| 0 <= j < u.len() ==> is_ascii_digit(#[trigger] u[j]),
        is_ascii_digit(d),
    ensures
        decimal_value(u.update(q, d)) - decimal_value(u) == (digit_value(d) - digit_value(u[q]))
            * pow10((u.len() - 1 - q) as nat),
    decreases u.len(),
{
    let v = u.update(q, d);
    if q == u.len() - 1 {
        assert(v.drop_last() =~= u.drop_last());
    } else {
        lemma_decimal_value_update(u.drop_last(), q, d);
        assert(v.drop_last() =~= u.drop_last().update(q, d));
        let delta = digit_value(d) - digit_value(u[q]);
        let p = pow10((u.len() - 2 - q) as nat);
        assert(pow10((u.len() - 1 - q) as nat) == 10 * p);
        assert((delta * p) * 10 == delta * (10 * p)) by (nonlinear_arith);
    }
}

proof fn lemma_shift_changes_residue(n: int, delta: int, e: nat)
    requires
        -9 <= delta <= 9,
        delta != 0,
        e <= 7,
    ensures
        (n + delta * pow10(e)) % 23 != n % 23,
{
    reveal_with_fuel(pow10, 8);
    if e == 0 {
        assert(pow10(e) == 1);
    } else if e == 1 {
        assert(pow10(e) == 10);
    } else if e == 2 {
        assert(pow10(e) == 100);
    } else if e == 3 {
        assert(pow10(e) == 1000);
    } else if e == 4 {
        assert(pow10(e) == 10000);
    } else if e == 5 {
        assert(pow10(e) == 100000);
    } else if e == 6 {
        assert(pow10(e) == 1000000);
    } else {
        assert(pow10(e) == 10000000);
    }
}

/// Changing one of the eight leading digits of a valid Spanish identifier
/// into another digit makes its control letter wrong.
pub proof fn lemma_spanish_id_detects_one_digit(s: Seq<char>, i: int, d: char)
    requires
        spanish_id_valid(s),
        0 <= i < 8,
        is_ascii_digit(s[i]),
        is_ascii_digit(d),
        d != s[i],
    ensures
        !spanish_id_valid(s.update(i, d)),
{
    let t = s.update(i, d);
    let delta = digit_value(d) - digit_value(s[i]);
    let n = identifier_number(s);
    let u = s.subrange(1, 8);
    if i == 0 {
        assert(t.subrange(1, 8) =~= u);
        assert(pow10(7) == 10000000) by {
            reveal_with_fuel(pow10, 8);
        }
        assert(identifier_number(t) == n + delta * pow10(7));
        lemma_shift_changes_residue(n, delta, 7);
    } else {
        assert(t.subrange(1, 8) =~= u.update(i - 1, d));
        assert forall|j: int| 0 <= j < u.len() implies is_ascii_digit(#[trigger] u[j]) by {
            assert(u[j] == s[j + 1]);
        }
        lemma_decimal_value_update(u, i - 1, d);
        assert(identifier_number(t) == n + delta * pow10((7 - i) as nat));
        lemma_shift_changes_residue(n, delta, (7 - i) as nat);
    }
    if spanish_id_valid(t) {
        assert(t[8] == s[8]);
        lemma_control_letters_distinct(identifier_number(t) % 23, n % 23);
    }
}

/// Control-letter check of a Spanish national or foreigner identifier.
pub fn validate_dni(dni: &str) -> (r: bool)
    ensures
        r == spanish_id_valid(dni@),
{
    let chars = chars_of(dni);
    if chars.len() != 9 {
        return false;
    }
    let first = chars[0];
    let upper_first = to_ascii_upper(first);
    let lead: u32 = if '0' <= first && first <= '9' {
        (first as u32) - ('0' as u32)
    } else if upper_first == 'X' {
        0
    } else if upper_first == 'Y' {
        1
    } else if upper_first == 'Z' {
        2
    } else {
        return false;
    };
    let mut rest: u32 = 0;
    let mut i: usize = 1;
    while i < 8
        invariant
            chars@ == dni@,
            chars@.len() == 9,
            1 <= i <= 8,
            forall|j: int| 1 <= j < i ==> is_ascii_digit(#[trigger] chars@[j]),
            rest as int == decimal_value(chars@.subrange(1, i as int)),
            rest < pow10((i - 1) as nat),
        decreases 8 - i,
    {
        let c = chars[i];
        if !('0' <= c && c <= '9') {
            return false;
        }
        assert(chars@.subrange(1, i + 1).drop_last() == chars@.subrange(1, i as int));
        assert(pow10(i as nat) == 10 * pow10((i - 1) as nat));
        proof {
            lemma_pow10_monotonic((i - 1) as nat, 6);
            reveal_with_fuel(pow10, 7);
        }
        rest = rest * 10 + ((c as u32) - ('0' as u32));
        i += 1;
    }
    assert(pow10(7) == 10000000) by {
        reveal_with_fuel(pow10, 8);
    }
    let number: u32 = lead * 10000000 + rest;
    let expected = control_letter(number % 23);
    to_ascii_upper(chars[8]) == expected
}

// ----------------------------------------------------------------------
// IBAN, ISO 7064 mod 97-10
// ----------------------------------------------------------------------

/// Whether a character is alphanumeric in the Unicode sense.
pub uninterp spec fn alphanumeric(c: char) -> bool;

/// Relies on `char::is_alphanumeric` (Unicode Alphabetic or Numeric); on
/// ASCII that is exactly the letters and digits.
#[verifier::external_body]
pub(crate) fn is_alphanumeric(c: char) -> (r: bool)
    ensures
        r == alphanumeric(c),
        (c as u32) < 128 ==> (r <==> is_ascii_alnum(c)),
{
    c.is_alphanumeric()
}

/// The alphanumeric characters of `s`, in order.
pub open spec fn alphanumerics(s: Seq<char>) -> Seq<char>
    decreases s.len(),
{
    if s.len() == 0 {
        seq![]
    } else if alphanumeric(s.last()) {
        alphanumerics(s.drop_last()).push(s.last())
    } else {
        alphanumerics(s.drop_last())
    }
}

/// The number that stands for a character: a digit its value, any other
/// character its code point less 55 (A=10, ..., Z=35).
pub open spec fn iban_char_value(c: char) -> nat {
    if is_ascii_digit(c) {
        digit_value(c) as nat
    } else {
        ((c as u32) - 55) as nat
    }
}

/// The decimal digits of `v`, most significant first.
pub open spec fn decimal_digits(v: nat) -> Seq<u8>
    decreases v,
{
    if v < 10 {
        seq![v as u8]
    } else {
        decimal_digits(v / 10).push((v % 10) as u8)
    }
}

/// The digit string that writes each character's value in turn.
pub open spec fn iban_digits(s: Seq<char>) -> Seq<u8>
    decreases s.len(),
{
    if s.len() == 0 {
        seq![]
    } else {
        iban_digits(s.drop_last()) + decimal_digits(iban_char_value(s.last()))
    }
}

/// The remainder modulo 97 of the number written by `ds`, by Horner's rule.
pub open spec fn mod97(ds: Seq<u8>) -> int
    decreases ds.len(),
{
    if ds.len() == 0 {
        0
    } else {
        (mod97(ds.drop_last()) * 10 + ds.last()) % 97
    }
}

/// The alphanumerics of `s`, at least five, with the first four moved to
/// the end, have remainder 1 modulo 97.
pub open spec fn iban_valid(s: Seq<char>) -> bool {
    let c = alphanumerics(s);
    c.len() >= 5 && mod97(iban_digits(c.subrange(4, c.len() as int) + c.subrange(0, 4))) == 1
}

fn push_decimal_digits(v: u32, out: &mut Vec<u8>)
    requires
        forall|j: int| 0 <= j < old(out)@.len() ==> old(out)@[j] <= 9,
    ensures
        final(out)@ == old(out)@ + decimal_digits(v as nat),
        forall|j: int| 0 <= j < final(out)@.len() ==> final(out)@[j] <= 9,
    decreases v,
{
    if v >= 10 {
        push_decimal_digits(v / 10, out);
    }
    out.push((v % 10) as u8);
    assert(decimal_digits(v as nat) == if v < 10 {
        seq![v as u8]
    } else {
        decimal_digits((v / 10) as nat).push((v % 10) as u8)
    });
}

proof fn lemma_small_product_mod97(a: u32, r: u32)
    by (bit_vector)
    requires
        1 <= a <= 10,
        1 <= r <= 96,
    ensures
        (a * r) % 97 != 0,
{
}

/// The number written by the decimal digits `ds`.
pub open spec fn decimal_number(ds: Seq<u8>) -> int
    decreases ds.len(),
{
    if ds.len() == 0 {
        0
    } else {
        decimal_number(ds.drop_last()) * 10 + ds.last()
    }
}

proof fn lemma_mod97_value(ds: Seq<u8>)
    ensures
        mod97(ds) == decimal_number(ds) % 97,
    decreases ds.len(),
{
    if ds.len() > 0 {
        lemma_mod97_value(ds.drop_last());
        let p = decimal_number(ds.drop_last());
        let l = ds.last() as int;
        lemma_mul_mod_noop_left(p, 10, 97);
        lemma_add_mod_noop((p % 97) * 10, l, 97);
        lemma_add_mod_noop(p * 10, l, 97);
    }
}

proof fn lemma_decimal_number_update(ds: Seq<u8>, q: int, x: u8)
    requires
        0 <= q < ds.len(),
    ensures
        decimal_number(ds.update(q, x)) - decimal_number(ds) == (x - ds[q]) * pow10(
            (ds.len() - 1 - q) as nat,
        ),
    decreases ds.len(),
{
    let v = ds.update(q, x);
    if q == ds.len() - 1 {
        assert(v.drop_last() =~= ds.drop_last());
    } else {
        lemma_decimal_number_update(ds.drop_last(), q, x);
        assert(v.drop_last() =~= ds.drop_last().update(q, x));
        let delta = x - ds[q];
        let p = pow10((ds.len() - 2 - q) as nat);
        assert(pow10((ds.len() - 1 - q) as nat) == 10 * p);
        assert((delta * p) * 10 == delta * (10 * p)) by (nonlinear_arith);
    }
}

proof fn lemma_pow10_mod97(e: nat)
    ensures
        pow10(e) > 0,
        pow10(e) % 97 != 0,
    decreases e,
{
    if e > 0 {
        lemma_pow10_mod97((e - 1) as nat);
        let p = pow10((e - 1) as nat);
        let r = p % 97;
        lemma_small_product_mod97(10, r as u32);
        lemma_mul_mod_noop_right(10, p, 97);
        assert(pow10(e) == 10 * p);
    }
}

proof fn lemma_shift_changes_mod97(n: int, delta: int, e: nat)
    requires
        -9 <= delta <= 9,
        delta != 0,
    ensures
        (n + delta * pow10(e)) % 97 != n % 97,
{
    lemma_pow10_mod97(e);
    let p = pow10(e);
    let a = if delta > 0 { delta } else { -delta };
    lemma_small_product_mod97(a as u32, (p % 97) as u32);
    lemma_mul_mod_noop_right(a, p, 97);
    if (n + delta * p) % 97 == n % 97 {
        lemma_fundamental_div_mod(n, 97);
        lemma_fundamental_div_mod(n + delta * p, 97);
        let k = if delta > 0 { (n + delta * p) / 97 - n / 97 } else { n / 97 - (n + delta * p) / 97 };
        assert(a * p == 97 * k) by (nonlinear_arith)
            requires
                n == 97 * (n / 97) + n % 97,
                n + delta * p == 97 * ((n + delta * p) / 97) + (n + delta * p) % 97,
                (n + delta * p) % 97 == n % 97,
                a == if delta > 0 { delta } else { -delta },
                k == if delta > 0 { (n + delta * p) / 97 - n / 97 } else { n / 97 - (n + delta * p) / 97 },
        ;
        lemma_mod_multiples_basic(k, 97);
        assert(k * 97 == a * p);
    }
}

proof fn lemma_alphanumerics_update(s: Seq<char>, i: int, d: char)
    requires
        0 <= i < s.len(),
        alphanumeric(s[i]),
        alphanumeric(d),
    ensures
        alphanumerics(s.update(i, d)) == alphanumerics(s).update(
            alphanumerics(s.take(i)).len() as int,
            d,
        ),
        alphanumerics(s.take(i)).len() < alphanumerics(s).len(),
        alphanumerics(s)[alphanumerics(s.take(i)).len() as int] == s[i],
    decreases s.len(),
{
    let t = s.update(i, d);
    if i == s.len() - 1 {
        assert(t.drop_last() =~= s.drop_last());
        assert(s.take(i) =~= s.drop_last());
    } else {
        lemma_alphanumerics_update(s.drop_last(), i, d);
        assert(t.drop_last() =~= s.drop_last().update(i, d));
        assert(s.drop_last().take(i) =~= s.take(i));
        lemma_alphanumerics_len(s.drop_last());
    }
}

proof fn lemma_alphanumerics_len(s: Seq<char>)
    ensures
        alphanumerics(s).len() <= s.len(),
    decreases s.len(),
{
    if s.len() > 0 {
        lemma_alphanumerics_len(s.drop_last());
    }
}

proof fn lemma_iban_digits_update(r: Seq<char>, j: int, d: char)
    requires
        0 <= j < r.len(),
        is_ascii_digit(r[j]),
        is_ascii_digit(d),
    ensures
        iban_digits(r.update(j, d)) == iban_digits(r).update(
            iban_digits(r.take(j)).len() as int,
            digit_value(d) as u8,
        ),
        iban_digits(r.take(j)).len() < iban_digits(r).len(),
        iban_digits(r)[iban_digits(r.take(j)).len() as int] == digit_value(r[j]) as u8,
    decreases r.len(),
{
    let t = r.update(j, d);
    let v = digit_value(d) as nat;
    let w = digit_value(r[j]) as nat;
    assert(decimal_digits(v) == seq![v as u8]);
    assert(decimal_digits(w) == seq![w as u8]);
    if j == r.len() - 1 {
        assert(t.drop_last() =~= r.drop_last());
        assert(r.take(j) =~= r.drop_last());
        assert(iban_digits(t) =~= iban_digits(r).update(
            iban_digits(r.take(j)).len() as int,
            digit_value(d) as u8,
        ));
    } else {
        lemma_iban_digits_update(r.drop_last(), j, d);
        assert(t.drop_last() =~= r.drop_last().update(j, d));
        assert(r.drop_last().take(j) =~= r.take(j));
        assert(t.last() == r.last());
        assert(iban_digits(t) =~= iban_digits(r).update(
            iban_digits(r.take(j)).len() as int,
            digit_value(d) as u8,
        ));
    }
}

/// Changing one digit of a string that passes the IBAN check into another
/// digit makes it fail (ASCII digits are alphanumeric).
pub proof fn lemma_iban_detects_one_digit(s: Seq<char>, i: int, d: char)
    requires
        iban_valid(s),
        0 <= i < s.len(),
        is_ascii_digit(s[i]),
        is_ascii_digit(d),
        d != s[i],
        alphanumeric(s[i]),
        alphanumeric(d),
    ensures
        !iban_valid(s.update(i, d)),
{
    let c = alphanumerics(s);
    let n = c.len() as int;
    let m = alphanumerics(s.take(i)).len() as int;
    lemma_alphanumerics_update(s, i, d);
    let c2 = alphanumerics(s.update(i, d));
    assert(c2 == c.update(m, d));
    let r = c.subrange(4, n) + c.subrange(0, 4);
    let j = if m >= 4 { m - 4 } else { n - 4 + m };
    let r2 = c2.subrange(4, n) + c2.subrange(0, 4);
    assert(r2 =~= r.update(j, d));
    assert(r[j] == s[i]);
    lemma_iban_digits_update(r, j, d);
    let ds = iban_digits(r);
    let off = iban_digits(r.take(j)).len() as int;
    let x = digit_value(d) as u8;
    lemma_mod97_value(ds);
    lemma_mod97_value(ds.update(off, x));
    lemma_decimal_number_update(ds, off, x);
    lemma_shift_changes_mod97(
        decimal_number(ds),
        x - ds[off],
        (ds.len() - 1 - off) as nat,
    );
}

/// IBAN check: mod 97-10 over the alphanumeric characters of `iban`.
pub fn validate_iban(iban: &str) -> (r: bool)
    ensures
        r == iban_valid(iban@),
{
    let chars = chars_of(iban);
    let mut cleaned: Vec<char> = Vec::new();
    let mut i: usize = 0;
    while i < chars.len()
        invariant
            i <= chars.len(),
            chars@ == iban@,
            cleaned@ == alphanumerics(chars@.take(i as int)),
            forall|j: int|
                0 <= j < cleaned@.len() ==> alphanumeric(#[trigger] cleaned@[j]) && (is_ascii_digit(
                    cleaned@[j],
                ) || (cleaned@[j] as u32) >= 65),
        decreases chars.len() - i,
    {
        let c = chars[i];
        assert(chars@.take(i + 1).drop_last() == chars@.take(i as int));
        let keep = is_alphanumeric(c);
        if keep {
            cleaned.push(c);
        }
        i += 1;
    }
    assert(chars@.take(chars.len() as int) == chars@);
    let n = cleaned.len();
    if n < 5 {
        return false;
    }
    let mut rearranged: Vec<char> = Vec::new();
    let mut k: usize = 0;
    while k < n
        invariant
            n == cleaned@.len(),
            n >= 5,
            k <= n,
            rearranged@ == (cleaned@.subrange(4, n as int) + cleaned@.subrange(0, 4)).take(k as int),
        decreases n - k,
    {
        let idx = if k < n - 4 {
            k + 4
        } else {
            k - (n - 4)
        };
        rearranged.push(cleaned[idx]);
        assert(rearranged@ == (cleaned@.subrange(4, n as int) + cleaned@.subrange(0, 4)).take(
            k + 1,
        ));
        k += 1;
    }
    let ghost moved = cleaned@.subrange(4, n as int) + cleaned@.subrange(0, 4);
    assert(rearranged@ == moved);
    let mut digits: Vec<u8> = Vec::new();
    let mut m: usize = 0;
    while m < n
        invariant
            n == rearranged@.len(),
            m <= n,
            rearranged@ == moved,
            forall|j: int|
                0 <= j < moved.len() ==> (is_ascii_digit(#[trigger] moved[j]) || (moved[j] as u32) >= 65),
            digits@ == iban_digits(rearranged@.take(m as int)),
            forall|j: int| 0 <= j < digits@.len() ==> digits@[j] <= 9,
        decreases n - m,
    {
        let c = rearranged[m];
        assert(is_ascii_digit(moved[m as int]) || (moved[m as int] as u32) >= 65);
        let v: u32 = if '0' <= c && c <= '9' {
            (c as u32) - ('0' as u32)
        } else {
            (c as u32) - 55
        };
        assert(v as nat == iban_char_value(c));
        assert(rearranged@.take(m + 1).drop_last() == rearranged@.take(m as int));
        assert(rearranged@.take(m + 1).last() == c);
        push_decimal_digits(v, &mut digits);
        m += 1;
    }
    assert(rearranged@.take(n as int) == rearranged@);
    let mut acc: u32 = 0;
    let mut t: usize = 0;
    while t < digits.len()
        invariant
            t <= digits@.len(),
            acc < 97,
            acc as int == mod97(digits@.take(t as int)),
            forall|j: int| 0 <= j < digits@.len() ==> digits@[j] <= 9,
        decreases digits@.len() - t,
    {
        assert(digits@.take(t + 1).drop_last() == digits@.take(t as int));
        acc = (acc * 10 + digits[t] as u32) % 97;
        t += 1;
    }
    assert(digits@.take(digits@.len() as int) == digits@);
    acc == 1
}

} // verus!
