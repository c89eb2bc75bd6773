//! Note keys: a calendar date and an hour of the day, joined by a hyphen.

use vstd::prelude::*;
use vstd::string::*;

verus! {

/// The character that writes the digit `d`.
pub open spec fn digit_char(d: nat) -> char {
    if d == 0 {
        '0'
    } else if d == 1 {
        '1'
    } else if d == 2 {
        '2'
    } else if d == 3 {
        '3'
    } else if d == 4 {
        '4'
    } else if d == 5 {
        '5'
    } else if d == 6 {
        '6'
    } else if d == 7 {
        '7'
    } else if d == 8 {
        '8'
    } else {
        '9'
    }
}

/// `n` in decimal, most significant digit first, without padding.
pub open spec fn decimal(n: nat) -> Seq<char>
    decreases n,
{
    if n < 10 {
        seq![digit_char(n)]
    } else {
        decimal(n / 10).push(digit_char(n % 10))
    }
}

/// The digit that `c` writes; zero for a character that writes none.
pub open spec fn digit_value(c: char) -> nat {
    if c == '1' {
        1
    } else if c == '2' {
        2
    } else if c == '3' {
        3
    } else if c == '4' {
        4
    } else if c == '5' {
        5
    } else if c == '6' {
        6
    } else if c == '7' {
        7
    } else if c == '8' {
        8
    } else if c == '9' {
        9
    } else {
        0
    }
}

/// The number that a row of digits writes in decimal.
pub open spec fn decimal_value(s: Seq<char>) -> nat
    decreases s.len(),
{
    if s.len() == 0 {
        0
    } else {
        decimal_value(s.drop_last()) * 10 + digit_value(s.last())
    }
}

/// The key of the note for `hour` on the day written as `date`.
pub open spec fn note_key_text(date: Seq<char>, hour: nat) -> Seq<char> {
    date + seq!['-'] + decimal(hour)
}

/// A number written in decimal reads back as itself.
pub proof fn law_decimal_reads_back(n: nat)
    ensures
        decimal_value(decimal(n)) == n,
    decreases n,
{
    if n < 10 {
        let s = seq![digit_char(n)];
        assert(s.drop_last().len() == 0);
        assert(s.last() == digit_char(n));
        assert(decimal_value(s.drop_last()) == 0);
    } else {
        law_decimal_reads_back(n / 10);
        let s = decimal(n / 10).push(digit_char(n % 10));
        assert(s.drop_last() =~= decimal(n / 10));
        assert(s.last() == digit_char(n % 10));
    }
}

/// A number is written with its digits alone: one digit below ten, two below
/// a hundred, and no zero in front of a number other than zero.
pub proof fn law_decimal_is_unpadded(n: nat)
    ensures
        decimal(n).len() >= 1,
        n < 10 ==> decimal(n).len() == 1,
        10 <= n < 100 ==> decimal(n).len() == 2,
        n > 0 ==> decimal(n)[0] != '0',
    decreases n,
{
    if n >= 10 {
        law_decimal_is_unpadded(n / 10);
        assert(decimal(n)[0] == decimal(n / 10)[0]);
    }
}

/// On one day, two different hours have two different keys.
pub proof fn law_keys_differ_by_hour(date: Seq<char>, hour: nat, other: nat)
    requires
        hour != other,
    ensures
        note_key_text(date, hour) != note_key_text(date, other),
{
    let a = note_key_text(date, hour);
    let b = note_key_text(date, other);
    if a == b {
        let from = date.len() + 1;
        assert(a.subrange(from as int, a.len() as int) =~= decimal(hour));
        assert(b.subrange(from as int, b.len() as int) =~= decimal(other));
        law_decimal_reads_back(hour);
        law_decimal_reads_back(other);
    }
}

fn digit_str(d: u32) -> (r: &'static str)
    requires
        d < 10,
    ensures
        r@ == seq![digit_char(d as nat)],
{
    proof {
        reveal_strlit("0");
        reveal_strlit("1");
        reveal_strlit("2");
        reveal_strlit("3");
        reveal_strlit("4");
        reveal_strlit("5");
        reveal_strlit("6");
        reveal_strlit("7");
        reveal_strlit("8");
        reveal_strlit("9");
    }
    let r = if d == 0 {
        "0"
    } else if d == 1 {
        "1"
    } else if d == 2 {
        "2"
    } else if d == 3 {
        "3"
    } else if d == 4 {
        "4"
    } else if d == 5 {
        "5"
    } else if d == 6 {
        "6"
    } else if d == 7 {
        "7"
    } else if d == 8 {
        "8"
    } else {
        "9"
    };
    assert(r@ =~= seq![digit_char(d as nat)]);
    r
}

/// Writes `n` in decimal.
pub fn decimal_string(n: u32) -> (r: String)
    ensures
        r@ == decimal(n as nat),
    decreases n,
{
    if n < 10 {
        String::from_str(digit_str(n))
    } else {
        let mut s = decimal_string(n / 10);
        let ghost head = s@;
        s.append(digit_str(n % 10));
        assert(s@ =~= head.push(digit_char((n % 10) as nat)));
        s
    }
}

/// Builds the key of the note for `hour` on the day written as `date`:
/// the date, a hyphen, and the hour in decimal without padding.
pub fn note_key(date: &str, hour: u32) -> (r: String)
    ensures
        r@ == note_key_text(date@, hour as nat),
{
    proof {
        reveal_strlit("-");
    }
    let mut key = String::from_str(date);
    key.append("-");
    let digits = decimal_string(hour);
    key.append(digits.as_str());
    assert("-"@ =~= seq!['-']);
    key
}

/// Whether `c` is one of the ten digits.
pub open spec fn is_digit(c: char) -> bool {
    '0' <= c && c <= '9'
}

/// The shape of a written date: a year of four characters or more, a hyphen,
/// two digits for the month, a hyphen, and two digits for the day.
pub open spec fn date_shaped(s: Seq<char>) -> bool {
    &&& s.len() >= 10
    &&& s[s.len() - 6] == '-'
    &&& is_digit(s[s.len() - 5])
    &&& is_digit(s[s.len() - 4])
    &&& s[s.len() - 3] == '-'
    &&& is_digit(s[s.len() - 2])
    &&& is_digit(s[s.len() - 1])
}

/// Reads the clock with `std::time::SystemTime::now()`, turns it into a
/// local time with chrono's `DateTime::<Local>::from`, and writes the date
/// with `format("%Y-%m-%d")`. Believed, not proved: chrono writes the year
/// with at least four characters and the month and the day with two digits
/// each, hyphens between them. Which date it is depends on the clock and on
/// the machine's time zone, and nothing is claimed of that. A clock before
/// 1970 is provided for; one set beyond the years that chrono can hold, some
/// quarter of a million either way, is not.
#[verifier::external_body]
pub(crate) fn local_date_text() -> (r: String)
    ensures
        date_shaped(r@),
{
    chrono::DateTime::<chrono::Local>::from(std::time::SystemTime::now())
        .format("%Y-%m-%d")
        .to_string()
}

/// The key of the note for `hour` on the current local date. The date is
/// whatever the clock says at the moment of the call, written as a date; the
/// rest of the key is fixed by `hour`.
pub fn today_key(hour: u32) -> (r: String)
    ensures
        exists|date: Seq<char>| date_shaped(date) && r@ == note_key_text(date, hour as nat),
{
    let date = local_date_text();
    note_key(date.as_str(), hour)
}

} // verus!
