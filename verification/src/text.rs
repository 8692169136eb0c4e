//! Decimal numerals for the counts and line numbers that messages carry.

use vstd::prelude::*;

verus! {

/// The numeral of one decimal digit.
pub open spec fn digit_text(d: int) -> Seq<char> {
    if d == 0 {
        "0"@
    } else if d == 1 {
        "1"@
    } else if d == 2 {
        "2"@
    } else if d == 3 {
        "3"@
    } else if d == 4 {
        "4"@
    } else if d == 5 {
        "5"@
    } else if d == 6 {
        "6"@
    } else if d == 7 {
        "7"@
    } else if d == 8 {
        "8"@
    } else {
        "9"@
    }
}

/// The decimal numeral of a natural number, without leading zeros.
pub open spec fn natural_text(n: nat) -> Seq<char>
    decreases n,
{
    if n < 10 {
        digit_text(n as int)
    } else {
        natural_text(n / 10) + digit_text((n % 10) as int)
    }
}

/// The decimal numeral of an integer, with `-` before a negative one.
pub open spec fn integer_text(i: int) -> Seq<char> {
    if i < 0 {
        "-"@ + natural_text((-i) as nat)
    } else {
        natural_text(i as nat)
    }
}

fn digit(d: u64) -> (r: &'static str)
    requires
        d < 10,
    ensures
        r@ == digit_text(d as int),
{
    if d == 0 {
        "0"
    } else if d == 1 {
        "1"
    } else if d == 2 {
        "2"
    } else if d == 3 {
        "3"
    } else if d == 4 {
        "4"
    } else if d == 5 {
        "5"
    } else if d == 6 {
        "6"
    } else if d == 7 {
        "7"
    } else if d == 8 {
        "8"
    } else {
        "9"
    }
}

pub fn natural(n: u64) -> (r: String)
    ensures
        r@ == natural_text(n as nat),
    decreases n,
{
    if n < 10 {
        String::from_str(digit(n))
    } else {
        let mut text = natural(n / 10);
        text.append(digit(n % 10));
        text
    }
}

pub fn integer(i: i64) -> (r: String)
    ensures
        r@ == integer_text(i as int),
{
    if i >= 0 {
        natural(i as u64)
    } else {
        let magnitude: u64 = if i == i64::MIN {
            0x8000_0000_0000_0000u64
        } else {
            (-i) as u64
        };
        let mut text = String::from_str("-");
        let digits = natural(magnitude);
        text.append(digits.as_str());
        text
    }
}

} // verus!

verus! {

/// `a` followed by `b` and `c`.
pub fn join3(a: &str, b: &str, c: &str) -> (r: String)
    ensures
        r@ == a@ + b@ + c@,
{
    let mut text = String::from_str(a);
    text.append(b);
    text.append(c);
    text
}

} // verus!

verus! {

/// The texts of a sequence of strings.
pub open spec fn texts(strings: Seq<String>) -> Seq<Seq<char>> {
    Seq::new(strings.len(), |i: int| strings[i]@)
}

pub proof fn lemma_texts_push(strings: Seq<String>, string: String)
    ensures
        texts(strings.push(string)) == texts(strings).push(string@),
{
    assert(texts(strings.push(string)) =~= texts(strings).push(string@));
}

/// `longer` starts with `shorter`.
pub open spec fn starts_with<T>(longer: Seq<T>, shorter: Seq<T>) -> bool {
    &&& shorter.len() <= longer.len()
    &&& forall|i: int| 0 <= i < shorter.len() ==> longer[i] == shorter[i]
}

} // verus!
