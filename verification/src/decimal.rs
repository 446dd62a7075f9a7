//! Decimal text of monetary amounts: which texts are amounts, how many minor
//! units such a text denotes, and the text that a number of minor units is
//! written as.

use vstd::prelude::*;
use vstd::string::*;

verus! {

/// `c` is one of the ten ASCII digits.
pub open spec fn is_digit(c: char) -> bool {
    '0' <= c && c <= '9'
}

/// The number that the digit `c` stands for.
pub open spec fn digit_value(c: char) -> nat
    recommends
        is_digit(c),
{
    (c as int - '0' as int) as nat
}

/// The digit that stands for `d`.
pub open spec fn digit_char(d: nat) -> char
    recommends
        d < 10,
{
    (d + '0' as nat) as char
}

/// Every character of `s` is a digit.
pub open spec fn all_digits(s: Seq<char>) -> bool {
    forall|i: int| 0 <= i < s.len() ==> is_digit(#[trigger] s[i])
}

/// The number that a run of digits denotes in base ten; the empty run denotes zero.
pub open spec fn decimal_value(s: Seq<char>) -> nat
    decreases s.len(),
{
    if s.len() == 0 {
        0
    } else {
        decimal_value(s.drop_last()) * 10 + digit_value(s.last())
    }
}

/// The digits of `n` in base ten, without leading zeros; zero is written `0`.
pub open spec fn decimal_digits(n: nat) -> Seq<char>
    decreases n,
{
    if n < 10 {
        seq![digit_char(n)]
    } else {
        decimal_digits(n / 10).push(digit_char(n % 10))
    }
}

/// The digits before the separator; the whole text where it has no separator.
/// A text with more than one separator is split at one of them: it is no
/// amount, whichever it is.
pub open spec fn integer_part(s: Seq<char>) -> Seq<char> {
    if s.contains('.') {
        s.take(s.index_of('.'))
    } else {
        s
    }
}

/// The characters after the separator; nothing where the text has no separator.
pub open spec fn decimal_part(s: Seq<char>) -> Seq<char> {
    if s.contains('.') {
        s.skip(s.index_of('.') + 1)
    } else {
        Seq::empty()
    }
}

/// The text is an amount: digits alone, or digits (possibly none), a
/// separator, and one or two digits.
pub open spec fn is_amount(s: Seq<char>) -> bool {
    &&& all_digits(integer_part(s))
    &&& all_digits(decimal_part(s))
    &&& if s.contains('.') {
        1 <= decimal_part(s).len() <= 2
    } else {
        s.len() >= 1
    }
}

/// The hundredths that the digits after the separator denote: a single digit
/// counts tenths.
pub open spec fn fraction_value(dec: Seq<char>) -> nat {
    if dec.len() == 1 {
        decimal_value(dec) * 10
    } else {
        decimal_value(dec)
    }
}

/// The minor units that an amount text denotes.
pub open spec fn amount_value(s: Seq<char>) -> nat
    recommends
        is_amount(s),
{
    decimal_value(integer_part(s)) * 100 + fraction_value(decimal_part(s))
}

/// The text that `v` minor units are written as: the whole units, the
/// separator, and two digits of hundredths.
pub open spec fn amount_text(v: nat) -> Seq<char> {
    decimal_digits(v / 100) + seq!['.', digit_char(v % 100 / 10), digit_char(v % 10)]
}

/// Appending a digit multiplies the value by ten and adds the digit.
pub proof fn lemma_decimal_value_push(s: Seq<char>, c: char)
    ensures
        decimal_value(s.push(c)) == decimal_value(s) * 10 + digit_value(c),
{
    assert(s.push(c).drop_last() =~= s);
}

/// A run of digits denotes at least what any of its prefixes denotes.
pub proof fn lemma_decimal_value_prefix(s: Seq<char>, k: int)
    requires
        0 <= k <= s.len(),
    ensures
        decimal_value(s.take(k)) <= decimal_value(s),
    decreases s.len() - k,
{
    if k == s.len() {
        assert(s.take(k) =~= s);
    } else {
        lemma_decimal_value_prefix(s, k + 1);
        assert(s.take(k + 1).drop_last() =~= s.take(k));
    }
}

/// The digits of a number are digits, and denote that number.
pub proof fn lemma_decimal_digits(n: nat)
    ensures
        decimal_digits(n).len() >= 1,
        all_digits(decimal_digits(n)),
        decimal_value(decimal_digits(n)) == n,
    decreases n,
{
    if n < 10 {
        let s = seq![digit_char(n)];
        assert(decimal_value(s.drop_last()) == 0);
    } else {
        lemma_decimal_digits(n / 10);
        lemma_decimal_value_push(decimal_digits(n / 10), digit_char(n % 10));
    }
}

/// A text whose only separator stands at `p` splits there.
pub proof fn lemma_split_at(s: Seq<char>, p: int)
    requires
        0 <= p < s.len(),
        s[p] == '.',
        forall|i: int| 0 <= i < s.len() && i != p ==> s[i] != '.',
    ensures
        s.contains('.'),
        s.index_of('.') == p,
        integer_part(s) == s.take(p),
        decimal_part(s) == s.skip(p + 1),
{
}

/// Writing a number of minor units and reading the text again gives the
/// number back.
pub proof fn lemma_amount_text_round_trip(v: nat)
    ensures
        is_amount(amount_text(v)),
        amount_value(amount_text(v)) == v,
{
    let whole = decimal_digits(v / 100);
    let tens = digit_char(v % 100 / 10);
    let ones = digit_char(v % 10);
    let dec = seq![tens, ones];
    let t = amount_text(v);
    let p = whole.len() as int;
    lemma_decimal_digits(v / 100);
    assert forall|i: int| 0 <= i < t.len() && i != p implies t[i] != '.' by {}
    lemma_split_at(t, p);
    assert(t.take(p) =~= whole);
    assert(t.skip(p + 1) =~= dec);
    lemma_decimal_value_push(Seq::empty(), tens);
    lemma_decimal_value_push(seq![tens], ones);
    assert(seq![tens].push(ones) =~= dec);
}

/// The grammar, character by character: an amount is a non-empty text of
/// digits and at most one separator, and the separator, where there is one,
/// has one or two characters after it.
pub proof fn lemma_amount_grammar(s: Seq<char>)
    ensures
        is_amount(s) <==> {
            &&& s.len() >= 1
            &&& forall|i: int| 0 <= i < s.len() ==> is_digit(s[i]) || s[i] == '.'
            &&& forall|i: int, j: int| 0 <= i < j < s.len() ==> !(s[i] == '.' && s[j] == '.')
            &&& forall|i: int| 0 <= i < s.len() && s[i] == '.' ==> 1 <= s.len() - 1 - i <= 2
        },
{
    if s.contains('.') {
        let p = s.index_of('.');
        let whole = s.take(p);
        let dec = s.skip(p + 1);
        if is_amount(s) {
            assert forall|i: int| 0 <= i < s.len() && i != p implies is_digit(s[i]) by {
                if i < p {
                    assert(is_digit(whole[i]));
                } else {
                    assert(is_digit(dec[i - p - 1]));
                }
            }
        }
    } else {
        if is_amount(s) {
            assert forall|i: int| 0 <= i < s.len() implies is_digit(s[i]) by {}
        }
    }
}

/// The digit `0` as a byte.
const ZERO: u8 = 48;

/// The digit `9` as a byte.
const NINE: u8 = 57;

/// The separator `.` as a byte.
const SEPARATOR: u8 = 46;

/// Whether the byte is an ASCII digit.
fn is_digit_byte(b: u8) -> (r: bool)
    ensures
        r == (ZERO <= b <= NINE),
{
    ZERO <= b && b <= NINE
}

/// The number that the digit at position `i` of `s` stands for.
fn digit_at(s: &str, i: usize) -> (d: u64)
    requires
        s.is_ascii(),
        i < s@.len(),
        is_digit(s@[i as int]),
    ensures
        d == digit_value(s@[i as int]),
        d < 10,
{
    (s.get_ascii(i) - ZERO) as u64
}

/// Reads a text from the left and tells whether it is an amount; for an
/// amount, gives the number of digits before the separator.
pub(crate) fn scan_amount(s: &str) -> (r: Option<usize>)
    ensures
        r is Some <==> is_amount(s@),
        r matches Some(k) ==> s.is_ascii() && k <= s@.len() && k == integer_part(s@).len(),
{
    proof {
        lemma_amount_grammar(s@);
    }
    if !s.is_ascii() {
        return None;
    }
    let n = s.unicode_len();
    let mut k: usize = 0;
    while k < n && is_digit_byte(s.get_ascii(k))
        invariant
            s.is_ascii(),
            n == s@.len(),
            k <= n,
            forall|i: int| 0 <= i < k ==> is_digit(s@[i]),
        decreases n - k,
    {
        k += 1;
    }
    if k == n {
        return if n >= 1 {
            Some(n)
        } else {
            None
        };
    }
    if s.get_ascii(k) != SEPARATOR || n - k < 2 || n - k > 3 {
        return None;
    }
    if !is_digit_byte(s.get_ascii(k + 1)) {
        return None;
    }
    if n - k == 3 && !is_digit_byte(s.get_ascii(k + 2)) {
        return None;
    }
    proof {
        lemma_split_at(s@, k as int);
    }
    Some(k)
}

/// The number that the digits of `s` from `from` up to `to` denote, where it
/// fits in 64 bits.
pub(crate) fn digits_value(s: &str, from: usize, to: usize) -> (r: Option<u64>)
    requires
        s.is_ascii(),
        from <= to <= s@.len(),
        all_digits(s@.subrange(from as int, to as int)),
    ensures
        match r {
            Some(v) => v == decimal_value(s@.subrange(from as int, to as int)),
            None => decimal_value(s@.subrange(from as int, to as int)) > u64::MAX,
        },
{
    let ghost digits = s@.subrange(from as int, to as int);
    let mut value: u64 = 0;
    let mut i: usize = from;
    while i < to
        invariant
            s.is_ascii(),
            from <= i <= to <= s@.len(),
            digits == s@.subrange(from as int, to as int),
            all_digits(digits),
            value == decimal_value(digits.take(i - from)),
        decreases to - i,
    {
        let d: u64 = digit_at(s, i);
        proof {
            assert(digits.take(i - from + 1).drop_last() =~= digits.take(i - from));
            lemma_decimal_value_prefix(digits, i - from + 1);
        }
        value = match value.checked_mul(10) {
            Some(tenfold) => match tenfold.checked_add(d) {
                Some(next) => next,
                None => return None,
            },
            None => return None,
        };
        i += 1;
    }
    assert(digits.take(to - from) =~= digits);
    Some(value)
}

/// The hundredths that the one or two digits of `s` from `from` on denote.
pub(crate) fn fraction_digits_value(s: &str, from: usize) -> (r: u64)
    requires
        s.is_ascii(),
        from < s@.len() <= from + 2,
        all_digits(s@.skip(from as int)),
    ensures
        r == fraction_value(s@.skip(from as int)),
        r <= 99,
{
    let ghost dec = s@.skip(from as int);
    assert(is_digit(dec[0]));
    let tens: u64 = digit_at(s, from);
    proof {
        lemma_decimal_value_push(Seq::empty(), dec[0]);
        assert(Seq::<char>::empty().push(dec[0]) =~= dec.take(1));
    }
    if s.unicode_len() - from == 1 {
        assert(dec.take(1) =~= dec);
        tens * 10
    } else {
        assert(is_digit(dec[1]));
        let ones: u64 = digit_at(s, from + 1);
        proof {
            lemma_decimal_value_push(dec.take(1), dec[1]);
        }
        tens * 10 + ones
    }
}

/// The text of one digit.
fn digit_str(d: u64) -> (r: &'static str)
    requires
        d < 10,
    ensures
        r@ == seq![digit_char(d as nat)],
{
    proof {
        reveal_strlit("0");
        reveal_strlit("1");
        reveal_strlit("2");
        reveal_strlit("3");
        reveal_strlit("4");
        reveal_strlit("5");
        reveal_strlit("6");
        reveal_strlit("7");
        reveal_strlit("8");
        reveal_strlit("9");
    }
    match d {
        0 => "0",
        1 => "1",
        2 => "2",
        3 => "3",
        4 => "4",
        5 => "5",
        6 => "6",
        7 => "7",
        8 => "8",
        _ => "9",
    }
}

/// Appends one digit to a text.
pub(crate) fn push_digit(out: &mut String, d: u64)
    requires
        d < 10,
    ensures
        final(out)@ == old(out)@.push(digit_char(d as nat)),
{
    out.append(digit_str(d));
}

/// Appends the digits of a number to a text.
pub(crate) fn push_decimal(out: &mut String, n: u64)
    ensures
        final(out)@ == old(out)@ + decimal_digits(n as nat),
    decreases n,
{
    if n >= 10 {
        push_decimal(out, n / 10);
    }
    push_digit(out, n % 10);
}

} // verus!
