//! Text building blocks: digits, numbers in decimal and hexadecimal, decimal parsing,
//! and the short form of a file name. The work is done on vectors of characters and
//! stated over sequences of characters.

use vstd::prelude::*;

verus! {

/// Collects characters into a `String` with `Iterator::collect`; the string holds
/// exactly the characters given, in order.
#[verifier::external_body]
pub(crate) fn string_from_chars(chars: &Vec<char>) -> (s: String)
    ensures
        s@ == chars@,
{
    chars.iter().collect()
}

/// Collects the characters of a string slice, in order.
pub fn chars_of(s: &str) -> (chars: Vec<char>)
    ensures
        chars@ == s@,
{
    broadcast use vstd::string::group_string_axioms;

    let mut chars: Vec<char> = Vec::new();
    for c in it: s.chars()
        invariant
            it.seq() == s@,
            chars@ == it.seq().take(it.index() as int),
    {
        chars.push(c);
    }
    assert(chars@ =~= s@);
    chars
}

/// The character for a digit value, upper case for ten and above; fifteen and
/// every greater value give `F`.
pub open spec fn spec_digit(d: int) -> char {
    if d == 0 {
        '0'
    } else if d == 1 {
        '1'
    } else if d == 2 {
        '2'
    } else if d == 3 {
        '3'
    } else if d == 4 {
        '4'
    } else if d == 5 {
        '5'
    } else if d == 6 {
        '6'
    } else if d == 7 {
        '7'
    } else if d == 8 {
        '8'
    } else if d == 9 {
        '9'
    } else if d == 10 {
        'A'
    } else if d == 11 {
        'B'
    } else if d == 12 {
        'C'
    } else if d == 13 {
        'D'
    } else if d == 14 {
        'E'
    } else {
        'F'
    }
}

/// The digit value of a decimal digit character, if it is one.
pub open spec fn spec_digit_value(c: char) -> Option<int> {
    if c == '0' {
        Some(0)
    } else if c == '1' {
        Some(1)
    } else if c == '2' {
        Some(2)
    } else if c == '3' {
        Some(3)
    } else if c == '4' {
        Some(4)
    } else if c == '5' {
        Some(5)
    } else if c == '6' {
        Some(6)
    } else if c == '7' {
        Some(7)
    } else if c == '8' {
        Some(8)
    } else if c == '9' {
        Some(9)
    } else {
        None
    }
}

/// The decimal digits of a number, most significant first, without leading zeros.
pub open spec fn spec_decimal(n: nat) -> Seq<char>
    decreases n,
{
    if n < 10 {
        seq![spec_digit(n as int)]
    } else {
        spec_decimal(n / 10).push(spec_digit((n % 10) as int))
    }
}

/// The hexadecimal digits of a number in upper case, most significant first, without
/// leading zeros.
pub open spec fn spec_hex_upper(n: nat) -> Seq<char>
    decreases n,
{
    if n < 16 {
        seq![spec_digit(n as int)]
    } else {
        spec_hex_upper(n / 16).push(spec_digit((n % 16) as int))
    }
}

/// A signed number in decimal: a minus sign, if negative, then the digits of its
/// magnitude.
pub open spec fn spec_signed_decimal(n: int) -> Seq<char> {
    if n < 0 {
        seq!['-'] + spec_decimal((-n) as nat)
    } else {
        spec_decimal(n as nat)
    }
}

/// The character of one digit value; fifteen and every greater value give `F`.
pub fn digit_char(d: u64) -> (c: char)
    ensures
        c == spec_digit(d as int),
{
    if d == 0 {
        '0'
    } else if d == 1 {
        '1'
    } else if d == 2 {
        '2'
    } else if d == 3 {
        '3'
    } else if d == 4 {
        '4'
    } else if d == 5 {
        '5'
    } else if d == 6 {
        '6'
    } else if d == 7 {
        '7'
    } else if d == 8 {
        '8'
    } else if d == 9 {
        '9'
    } else if d == 10 {
        'A'
    } else if d == 11 {
        'B'
    } else if d == 12 {
        'C'
    } else if d == 13 {
        'D'
    } else if d == 14 {
        'E'
    } else {
        'F'
    }
}

/// The value of a decimal digit character.
pub fn digit_value(c: char) -> (d: Option<u64>)
    ensures
        match d {
            Some(v) => spec_digit_value(c) == Some(v as int),
            None => spec_digit_value(c).is_none(),
        },
{
    if c == '0' {
        Some(0)
    } else if c == '1' {
        Some(1)
    } else if c == '2' {
        Some(2)
    } else if c == '3' {
        Some(3)
    } else if c == '4' {
        Some(4)
    } else if c == '5' {
        Some(5)
    } else if c == '6' {
        Some(6)
    } else if c == '7' {
        Some(7)
    } else if c == '8' {
        Some(8)
    } else if c == '9' {
        Some(9)
    } else {
        None
    }
}

/// Appends the decimal digits of `n`.
pub fn push_decimal(out: &mut Vec<char>, n: u64)
    ensures
        final(out)@ == old(out)@ + spec_decimal(n as nat),
    decreases n,
{
    if n >= 10 {
        push_decimal(out, n / 10);
    }
    out.push(digit_char(n % 10));
}

/// Appends the upper-case hexadecimal digits of `n`.
pub fn push_hex_upper(out: &mut Vec<char>, n: u64)
    ensures
        final(out)@ == old(out)@ + spec_hex_upper(n as nat),
    decreases n,
{
    if n >= 16 {
        push_hex_upper(out, n / 16);
    }
    out.push(digit_char(n % 16));
}

/// Appends a signed number in decimal.
pub fn push_signed_decimal(out: &mut Vec<char>, n: i64)
    ensures
        final(out)@ == old(out)@ + spec_signed_decimal(n as int),
{
    if n < 0 {
        out.push('-');
        let magnitude: u64 = if n == i64::MIN {
            0x8000_0000_0000_0000u64
        } else {
            (0 - n) as u64
        };
        push_decimal(out, magnitude);
    } else {
        push_decimal(out, n as u64);
    }
}

/// Appends the characters of a string slice.
pub fn push_text(out: &mut Vec<char>, s: &str)
    ensures
        final(out)@ == old(out)@ + s@,
{
    let mut chars = chars_of(s);
    out.append(&mut chars);
}

/// Whether a character separates the components of a path.
pub open spec fn is_separator(c: char) -> bool {
    c == '/' || c == '\\'
}

/// The position of the last path separator, if there is one.
pub open spec fn spec_last_separator(s: Seq<char>) -> Option<int>
    decreases s.len(),
{
    if s.len() == 0 {
        None
    } else if is_separator(s.last()) {
        Some(s.len() - 1)
    } else {
        spec_last_separator(s.drop_last())
    }
}

/// The short form of a file name: what follows its last path separator. A name
/// without a separator has no short form.
pub open spec fn spec_short_filename(s: Seq<char>) -> Option<Seq<char>> {
    match spec_last_separator(s) {
        Some(i) => Some(s.subrange(i + 1, s.len() as int)),
        None => None,
    }
}

/// The last separator is a separator, nothing after it is one, and there is none at
/// all exactly when no character of the name is a separator.
pub proof fn lemma_last_separator(s: Seq<char>)
    ensures
        match spec_last_separator(s) {
            Some(i) => 0 <= i < s.len() && is_separator(s[i]) && forall|j: int|
                i < j < s.len() ==> !is_separator(#[trigger] s[j]),
            None => forall|j: int| 0 <= j < s.len() ==> !is_separator(#[trigger] s[j]),
        },
    decreases s.len(),
{
    if s.len() > 0 && !is_separator(s.last()) {
        let front = s.drop_last();
        lemma_last_separator(front);
        assert(forall|j: int| 0 <= j < front.len() ==> front[j] == s[j]);
    }
}

/// Computes the short form of a file name.
pub fn short_filename(filename: &Vec<char>) -> (short: Option<Vec<char>>)
    ensures
        match short {
            Some(v) => spec_short_filename(filename@) == Some(v@),
            None => spec_short_filename(filename@).is_none(),
        },
{
    let mut end: usize = filename.len();
    assert(filename@.take(end as int) == filename@);
    while end > 0
        invariant
            end <= filename@.len(),
            spec_last_separator(filename@) == spec_last_separator(filename@.take(end as int)),
        decreases end,
    {
        let c = filename[end - 1];
        let ghost prefix = filename@.take(end as int);
        assert(prefix.drop_last() == filename@.take(end - 1));
        if c == '/' || c == '\\' {
            let mut short: Vec<char> = Vec::new();
            let mut i: usize = end;
            while i < filename.len()
                invariant
                    end <= i <= filename@.len(),
                    short@ == filename@.subrange(end as int, i as int),
                decreases filename@.len() - i,
            {
                short.push(filename[i]);
                i += 1;
            }
            return Some(short);
        }
        end -= 1;
    }
    None
}

/// The number that a string of decimal digits stands for, if every character is a
/// digit and there is at least one.
pub open spec fn spec_parse_decimal(s: Seq<char>) -> Option<nat>
    decreases s.len(),
{
    if s.len() == 0 {
        None
    } else {
        match spec_digit_value(s.last()) {
            None => None,
            Some(d) => if s.len() == 1 {
                Some(d as nat)
            } else {
                match spec_parse_decimal(s.drop_last()) {
                    None => None,
                    Some(high) => Some(high * 10 + d as nat),
                }
            },
        }
    }
}

/// The number that a string of decimal digits stands for, where it is no greater
/// than `limit`.
pub open spec fn spec_parse_bounded(s: Seq<char>, limit: u64) -> Option<u64> {
    match spec_parse_decimal(s) {
        Some(n) => if n <= limit {
            Some(n as u64)
        } else {
            None
        },
        None => None,
    }
}

/// Parses a string of decimal digits that stands for a number no greater than
/// `limit`; anything else gives `None`.
pub fn parse_decimal(chars: &Vec<char>, limit: u64) -> (value: Option<u64>)
    ensures
        value == spec_parse_bounded(chars@, limit),
{
    if chars.len() == 0 {
        return None;
    }
    let mut acc: u64 = 0;
    let mut i: usize = 0;
    let mut overflowed = false;
    while i < chars.len()
        invariant
            i <= chars@.len(),
            chars@.len() > 0,
            acc <= limit,
            i > 0 && !overflowed ==> spec_parse_decimal(chars@.take(i as int)) == Some(acc as nat),
            i > 0 && overflowed ==> (spec_parse_decimal(chars@.take(i as int)) matches Some(n)
                ==> n > limit),
            i == 0 ==> acc == 0 && !overflowed,
        decreases chars@.len() - i,
    {
        let ghost prefix = chars@.take(i as int + 1);
        assert(prefix.drop_last() == chars@.take(i as int));
        match digit_value(chars[i]) {
            None => {
                proof {
                    lemma_parse_decimal_bad_digit(chars@, i as int);
                }
                return None;
            },
            Some(d) => {
                if overflowed || limit < d || acc > (limit - d) / 10 {
                    overflowed = true;
                    acc = 0;
                } else {
                    acc = acc * 10 + d;
                }
            },
        }
        i += 1;
    }
    assert(chars@.take(i as int) == chars@);
    if overflowed {
        None
    } else {
        Some(acc)
    }
}

/// A string with a character that is no digit stands for no number.
pub proof fn lemma_parse_decimal_bad_digit(s: Seq<char>, i: int)
    requires
        0 <= i < s.len(),
        spec_digit_value(s[i]).is_none(),
    ensures
        spec_parse_decimal(s).is_none(),
    decreases s.len(),
{
    if i < s.len() - 1 {
        lemma_parse_decimal_bad_digit(s.drop_last(), i);
    }
}

/// Whether a text begins with another.
pub open spec fn spec_starts_with(s: Seq<char>, prefix: Seq<char>) -> bool {
    prefix.len() <= s.len() && s.subrange(0, prefix.len() as int) == prefix
}

/// Tells whether a text begins with another.
pub fn starts_with(s: &Vec<char>, prefix: &str) -> (yes: bool)
    ensures
        yes == spec_starts_with(s@, prefix@),
{
    let p = chars_of(prefix);
    if p.len() > s.len() {
        return false;
    }
    let mut i: usize = 0;
    while i < p.len()
        invariant
            i <= p@.len() <= s@.len(),
            p@ == prefix@,
            s@.subrange(0, i as int) == p@.subrange(0, i as int),
        decreases p@.len() - i,
    {
        if s[i] != p[i] {
            return false;
        }
        i += 1;
    }
    assert(p@.subrange(0, p@.len() as int) == p@);
    true
}

/// The last component of a path: what follows its last separator, or the whole
/// path where it has none.
pub open spec fn spec_file_name(path: Seq<char>) -> Seq<char> {
    match spec_short_filename(path) {
        Some(short) => short,
        None => path,
    }
}

/// Computes the last component of a path.
pub fn file_name(path: &Vec<char>) -> (name: Vec<char>)
    ensures
        name@ == spec_file_name(path@),
{
    match short_filename(path) {
        Some(short) => short,
        None => path.clone(),
    }
}

} // verus!
