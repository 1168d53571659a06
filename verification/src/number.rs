//! Decimal numbers inside free text: where the next run of digits stands and
//! what it is worth.

use vstd::prelude::*;

verus! {

/// An ASCII decimal digit.
pub open spec fn is_digit(b: u8) -> bool {
    48 <= b && b <= 57
}

/// Value of a run of decimal digits, most significant first.
pub open spec fn decimal_value(s: Seq<u8>) -> nat
    decreases s.len(),
{
    if s.len() == 0 {
        0
    } else {
        decimal_value(s.drop_last()) * 10 + (s.last() - 48) as nat
    }
}

/// First index at or after `from` that holds a digit; the length if none does.
pub open spec fn digits_start(s: Seq<u8>, from: int) -> int
    decreases s.len() - from,
{
    if from >= s.len() {
        s.len() as int
    } else if is_digit(s[from]) {
        from
    } else {
        digits_start(s, from + 1)
    }
}

/// First index at or after `from` that holds no digit; the length if all do.
pub open spec fn digits_end(s: Seq<u8>, from: int) -> int
    decreases s.len() - from,
{
    if from >= s.len() {
        s.len() as int
    } else if !is_digit(s[from]) {
        from
    } else {
        digits_end(s, from + 1)
    }
}

/// The next number at or after `from`: its value and the index just past its
/// last digit. `None` where no digit follows.
pub open spec fn number_at(s: Seq<u8>, from: int) -> Option<(nat, int)> {
    let a = digits_start(s, from);
    let b = digits_end(s, a);
    if a >= s.len() {
        None
    } else {
        Some((decimal_value(s.subrange(a, b)), b))
    }
}

/// A value as a signed 64-bit number, where it fits.
pub open spec fn bounded(v: nat) -> Option<i64> {
    if v <= i64::MAX {
        Some(v as i64)
    } else {
        None
    }
}

/// `digits_start` stays within the text and skips only non-digits.
pub proof fn lemma_digits_start(s: Seq<u8>, from: int)
    requires
        0 <= from <= s.len(),
    ensures
        from <= digits_start(s, from) <= s.len(),
        digits_start(s, from) < s.len() ==> is_digit(s[digits_start(s, from)]),
        forall|k: int| from <= k < digits_start(s, from) ==> !is_digit(#[trigger] s[k]),
    decreases s.len() - from,
{
    if from < s.len() && !is_digit(s[from]) {
        lemma_digits_start(s, from + 1);
    }
}

/// `digits_end` stays within the text and skips only digits.
pub proof fn lemma_digits_end(s: Seq<u8>, from: int)
    requires
        0 <= from <= s.len(),
    ensures
        from <= digits_end(s, from) <= s.len(),
        digits_end(s, from) < s.len() ==> !is_digit(s[digits_end(s, from)]),
        forall|k: int| from <= k < digits_end(s, from) ==> is_digit(#[trigger] s[k]),
        from < s.len() && is_digit(s[from]) ==> from < digits_end(s, from),
    decreases s.len() - from,
{
    if from < s.len() && is_digit(s[from]) {
        lemma_digits_end(s, from + 1);
    }
}

/// Appending one digit multiplies the value by ten and adds the digit.
pub proof fn lemma_decimal_step(s: Seq<u8>, a: int, i: int)
    requires
        0 <= a <= i < s.len(),
    ensures
        decimal_value(s.subrange(a, i + 1)) == decimal_value(s.subrange(a, i)) * 10 + (s[i] - 48) as nat,
{
    assert(s.subrange(a, i + 1).drop_last() =~= s.subrange(a, i));
}

fn find_digit(s: &[u8], from: usize) -> (r: usize)
    requires
        from <= s.len(),
    ensures
        r == digits_start(s@, from as int),
        from <= r <= s.len(),
{
    let mut i: usize = from;
    while i < s.len() && !(48 <= s[i] && s[i] <= 57)
        invariant
            from <= i <= s.len(),
            digits_start(s@, from as int) == digits_start(s@, i as int),
        decreases s.len() - i,
    {
        i += 1;
    }
    i
}

fn find_non_digit(s: &[u8], from: usize) -> (r: usize)
    requires
        from <= s.len(),
    ensures
        r == digits_end(s@, from as int),
        from <= r <= s.len(),
{
    let mut i: usize = from;
    while i < s.len() && 48 <= s[i] && s[i] <= 57
        invariant
            from <= i <= s.len(),
            digits_end(s@, from as int) == digits_end(s@, i as int),
        decreases s.len() - i,
    {
        i += 1;
    }
    i
}

/// Reads the next number at or after `from`. Returns `None` where no digit
/// follows; else the index just past the number and its value, the value
/// being `None` where it does not fit in 64 signed bits.
pub fn scan_number(s: &[u8], from: usize) -> (r: Option<(Option<i64>, usize)>)
    ensures
        match number_at(s@, from as int) {
            None => r is None,
            Some((v, e)) => r == Some((bounded(v), e as usize)) && from < e <= s.len(),
        },
{
    if from > s.len() {
        return None;
    }
    let a = find_digit(s, from);
    if a >= s.len() {
        return None;
    }
    let b = find_non_digit(s, a);
    proof {
        lemma_digits_start(s@, from as int);
        lemma_digits_end(s@, a as int);
    }
    let mut acc: Option<i64> = Some(0);
    let mut i: usize = a;
    while i < b
        invariant
            a <= i <= b <= s.len(),
            forall|k: int| a <= k < b ==> is_digit(#[trigger] s@[k]),
            acc == bounded(decimal_value(s@.subrange(a as int, i as int))),
        decreases b - i,
    {
        let d: i64 = (s[i] - 48) as i64;
        proof {
            lemma_decimal_step(s@, a as int, i as int);
        }
        acc = match acc {
            Some(v) => match v.checked_mul(10) {
                Some(m) => m.checked_add(d),
                None => None,
            },
            None => None,
        };
        i += 1;
    }
    Some((acc, b))
}

} // verus!
