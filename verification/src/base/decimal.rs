//! Whole numbers in decimal notation.
use vstd::prelude::*;

use crate::base::text::chars;

verus! {

/// The digits, by value.
pub open spec fn digit(d: int) -> char {
    if d == 0 { '0' }
    else if d == 1 { '1' }
    else if d == 2 { '2' }
    else if d == 3 { '3' }
    else if d == 4 { '4' }
    else if d == 5 { '5' }
    else if d == 6 { '6' }
    else if d == 7 { '7' }
    else if d == 8 { '8' }
    else { '9' }
}

/// A natural number written in decimal, without leading zeros.
pub open spec fn decimal(n: nat) -> Seq<char>
    decreases n,
{
    if n < 10 {
        seq![digit(n as int)]
    } else {
        decimal(n / 10).push(digit((n % 10) as int))
    }
}

/// An integer written in decimal, with a minus sign where it is negative.
pub open spec fn signed(i: int) -> Seq<char> {
    if i < 0 {
        seq!['-'] + decimal((-i) as nat)
    } else {
        decimal(i as nat)
    }
}

/// The value of a digit.
pub open spec fn digit_value(c: char) -> Option<nat> {
    if c == '0' { Some(0) }
    else if c == '1' { Some(1) }
    else if c == '2' { Some(2) }
    else if c == '3' { Some(3) }
    else if c == '4' { Some(4) }
    else if c == '5' { Some(5) }
    else if c == '6' { Some(6) }
    else if c == '7' { Some(7) }
    else if c == '8' { Some(8) }
    else if c == '9' { Some(9) }
    else { None }
}

/// The number that a run of digits writes; nothing for no digit at all or for
/// anything that is not a digit.
pub open spec fn digits(s: Seq<char>) -> Option<nat>
    decreases s.len(),
{
    if s.len() == 0 {
        None
    } else if s.len() == 1 {
        digit_value(s[0])
    } else {
        match (digits(s.drop_last()), digit_value(s.last())) {
            (Some(front), Some(last)) => Some(front * 10 + last),
            _ => None,
        }
    }
}

/// The number that a string writes, with a sign in front of it or without.
pub open spec fn number(s: Seq<char>) -> Option<int> {
    if s.len() > 0 && s[0] == '-' {
        match digits(s.drop_first()) {
            Some(n) => Some(-(n as int)),
            None => None,
        }
    } else {
        match unsigned(s) {
            Some(n) => Some(n as int),
            None => None,
        }
    }
}

/// The number that a string writes, with a plus sign in front of it or without.
pub open spec fn unsigned(s: Seq<char>) -> Option<nat> {
    if s.len() > 0 && s[0] == '+' {
        digits(s.drop_first())
    } else {
        digits(s)
    }
}

/// Writing a digit and reading it gives the digit.
proof fn digit_round_trip(d: int)
    requires
        0 <= d < 10,
    ensures
        digit_value(digit(d)) == Some(d as nat),
{
}

/// Reading what was written gives the number back.
pub proof fn decimal_round_trip(n: nat)
    ensures
        digits(decimal(n)) == Some(n),
        decimal(n).len() > 0,
    decreases n,
{
    if n < 10 {
        digit_round_trip(n as int);
    } else {
        decimal_round_trip(n / 10);
        digit_round_trip((n % 10) as int);
        assert(decimal(n).drop_last() =~= decimal(n / 10));
    }
}

/// The first character of a written natural number is a digit.
proof fn decimal_first(n: nat)
    ensures
        decimal(n).len() > 0,
        digit_value(decimal(n)[0]) is Some,
    decreases n,
{
    if n >= 10 {
        decimal_first(n / 10);
        assert(decimal(n)[0] == decimal(n / 10)[0]);
    }
}

/// Every integer reads back as itself.
pub proof fn signed_round_trip(i: int)
    ensures
        number(signed(i)) == Some(i),
{
    if i < 0 {
        decimal_round_trip((-i) as nat);
        assert(signed(i).drop_first() =~= decimal((-i) as nat));
    } else {
        decimal_round_trip(i as nat);
        decimal_first(i as nat);
    }
}

/// Different integers are written differently.
pub proof fn signed_injective(i: int, j: int)
    requires
        signed(i) == signed(j),
    ensures
        i == j,
{
    signed_round_trip(i);
    signed_round_trip(j);
}

fn digit_char(d: u128) -> (c: char)
    requires
        d < 10,
    ensures
        c == digit(d as int),
{
    match d {
        0 => '0',
        1 => '1',
        2 => '2',
        3 => '3',
        4 => '4',
        5 => '5',
        6 => '6',
        7 => '7',
        8 => '8',
        _ => '9',
    }
}

fn value_of(c: char) -> (r: Option<u64>)
    ensures
        match r {
            Some(d) => d < 10 && digit_value(c) == Some(d as nat),
            None => digit_value(c) is None,
        },
{
    match c {
        '0' => Some(0),
        '1' => Some(1),
        '2' => Some(2),
        '3' => Some(3),
        '4' => Some(4),
        '5' => Some(5),
        '6' => Some(6),
        '7' => Some(7),
        '8' => Some(8),
        '9' => Some(9),
        _ => None,
    }
}

/// Writes a natural number.
pub fn natural(n: u128) -> (out: String)
    ensures
        out@ == decimal(n as nat),
    decreases n,
{
    if n < 10 {
        let mut out = String::new();
        out.push(digit_char(n));
        assert(out@ =~= seq![digit(n as int)]);
        out
    } else {
        let mut out = natural(n / 10);
        out.push(digit_char(n % 10));
        out
    }
}

/// Writes an integer.
pub fn integer(i: i64) -> (out: String)
    ensures
        out@ == signed(i as int),
{
    if i < 0 {
        let mut out = String::new();
        out.push('-');
        let magnitude: u64 = (-(i as i128)) as u64;
        let rest = natural(magnitude as u128);
        assert(out@ =~= seq!['-']);
        crate::base::text::two(out.as_str(), rest.as_str())
    } else {
        natural(i as u128)
    }
}

/// Writes a length.
pub fn size(n: usize) -> (out: String)
    ensures
        out@ == decimal(n as nat),
{
    natural(n as u128)
}

/// A longer run of digits does not write a smaller number.
proof fn digits_grow(s: Seq<char>, k: int)
    requires
        1 <= k <= s.len(),
        digits(s) is Some,
    ensures
        digits(s.take(k)) is Some,
        digits(s.take(k))->0 <= digits(s)->0,
    decreases s.len() - k,
{
    if k < s.len() {
        digits_grow(s, k + 1);
        assert(s.take(k + 1).drop_last() =~= s.take(k));
    } else {
        assert(s.take(k) =~= s);
    }
}

/// Reads a run of digits from `from` on, up to a largest value.
fn read_digits(cs: &Vec<char>, from: usize, most: u64) -> (r: Option<u64>)
    requires
        from <= cs@.len(),
    ensures
        match r {
            Some(n) => n <= most && digits(cs@.skip(from as int)) == Some(n as nat),
            None => match digits(cs@.skip(from as int)) {
                Some(n) => n > most,
                None => true,
            },
        },
{
    let ghost s = cs@.skip(from as int);
    if from == cs.len() {
        return None;
    }
    let mut total: u64 = 0;
    let mut i: usize = from;
    while i < cs.len()
        invariant
            from <= i <= cs@.len(),
            from < cs@.len(),
            s == cs@.skip(from as int),
            total <= most,
            i == from ==> total == 0,
            i > from ==> digits(s.take(i - from)) == Some(total as nat),
        decreases cs.len() - i,
    {
        let ghost next = s.take(i + 1 - from);
        assert(next.last() == cs@[i as int]);
        assert(next.drop_last() =~= s.take(i - from));
        match value_of(cs[i]) {
            None => {
                proof {
                    assert(digits(next) is None);
                    if digits(s) is Some {
                        digits_grow(s, i + 1 - from);
                    }
                }
                return None;
            },
            Some(d) => {
                let wide: u128 = (total as u128) * 10 + (d as u128);
                assert(digits(next) == Some(wide as nat));
                if wide > most as u128 {
                    proof {
                        if digits(s) is Some {
                            digits_grow(s, i + 1 - from);
                        }
                    }
                    return None;
                }
                total = wide as u64;
            },
        }
        i += 1;
    }
    assert(s.take(i - from) =~= s);
    Some(total)
}

/// Reads a natural number up to a largest value.
pub fn parse_unsigned(s: &str, most: u64) -> (r: Option<u64>)
    ensures
        match r {
            Some(n) => n <= most && unsigned(s@) == Some(n as nat),
            None => match unsigned(s@) {
                Some(n) => n > most,
                None => true,
            },
        },
{
    let cs = chars(s);
    if cs.len() > 0 && cs[0] == '+' {
        assert(cs@.skip(1) =~= cs@.drop_first());
        read_digits(&cs, 1, most)
    } else {
        assert(cs@.skip(0) =~= cs@);
        read_digits(&cs, 0, most)
    }
}

/// Reads an integer between `-most - 1` and `most`.
pub fn parse_signed(s: &str, most: i64) -> (r: Option<i64>)
    requires
        most >= 0,
    ensures
        match r {
            Some(n) => -most - 1 <= n <= most && number(s@) == Some(n as int),
            None => match number(s@) {
                Some(n) => n > most || n < -most - 1,
                None => true,
            },
        },
{
    let cs = chars(s);
    if cs.len() > 0 && cs[0] == '-' {
        assert(cs@.skip(1) =~= cs@.drop_first());
        match read_digits(&cs, 1, most as u64 + 1) {
            Some(n) => Some((-(n as i128)) as i64),
            None => None,
        }
    } else {
        match parse_unsigned(s, most as u64) {
            Some(n) => Some(n as i64),
            None => None,
        }
    }
}

} // verus!
