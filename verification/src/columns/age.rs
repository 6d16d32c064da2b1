//! Ages, written the way kubectl writes them.
//!
//! The exact thresholds matter more than they look: these cells are read next
//! to a terminal running `kubectl get`, and one that says `90m` where kubectl
//! says `1h30m` reads as a bug.
use vstd::prelude::*;

use crate::base::decimal::{decimal, digit_value, integer, signed};
use crate::base::text::two;
use crate::base::time::{whole_seconds, Timestamp};

verus! {

/// A count of one unit of time.
pub open spec fn single(n: int, unit: Seq<char>) -> Seq<char> {
    signed(n) + unit
}

/// A count of one unit of time and the rest in a smaller one, which is left
/// out where it is zero.
pub open spec fn double(n: int, unit: Seq<char>, rest: int, small: Seq<char>) -> Seq<char> {
    if rest == 0 {
        single(n, unit)
    } else {
        single(n, unit) + single(rest, small)
    }
}

/// A duration the way kubectl prints an age: in seconds below two minutes, in
/// minutes and seconds below ten minutes, in minutes below three hours, in
/// hours and minutes below eight hours, in hours below two days, in days and
/// hours below eight days, in days below two years, in years and days below
/// eight years, and in years from there on.
pub open spec fn human(seconds: int) -> Seq<char> {
    let minutes = seconds / 60;
    let hours = seconds / 3600;
    let days = hours / 24;
    let years = days / 365;
    if seconds < -1 {
        "<invalid>"@
    } else if seconds < 0 {
        "0s"@
    } else if seconds < 120 {
        single(seconds, "s"@)
    } else if minutes < 10 {
        double(minutes, "m"@, seconds % 60, "s"@)
    } else if minutes < 180 {
        single(minutes, "m"@)
    } else if hours < 8 {
        double(hours, "h"@, minutes % 60, "m"@)
    } else if hours < 48 {
        single(hours, "h"@)
    } else if hours < 24 * 8 {
        double(days, "d"@, hours % 24, "h"@)
    } else if hours < 24 * 365 * 2 {
        single(days, "d"@)
    } else if hours < 24 * 365 * 8 {
        double(years, "y"@, days % 365, "d"@)
    } else {
        single(years, "y"@)
    }
}

/// The age of something that happened at `then`, seen at `now`.
pub open spec fn age_at(now: int, then: int) -> Seq<char> {
    human(whole_seconds(now - then))
}

fn one(n: i64, unit: &str) -> (out: String)
    ensures
        out@ == single(n as int, unit@),
{
    two(integer(n).as_str(), unit)
}

fn both(n: i64, unit: &str, rest: i64, small: &str) -> (out: String)
    ensures
        out@ == double(n as int, unit@, rest as int, small@),
{
    if rest == 0 {
        one(n, unit)
    } else {
        two(one(n, unit).as_str(), one(rest, small).as_str())
    }
}

/// Formats an age the way kubectl's `AGE` column does.
pub fn format_duration(seconds: i64) -> (out: String)
    ensures
        out@ == human(seconds as int),
{
    if seconds < -1 {
        return "<invalid>".to_owned();
    }
    if seconds < 0 {
        return "0s".to_owned();
    }
    if seconds < 120 {
        return one(seconds, "s");
    }
    let minutes: i64 = seconds / 60;
    if minutes < 10 {
        return both(minutes, "m", seconds % 60, "s");
    }
    if minutes < 180 {
        return one(minutes, "m");
    }
    let hours: i64 = seconds / 3600;
    if hours < 8 {
        return both(hours, "h", minutes % 60, "m");
    }
    if hours < 48 {
        return one(hours, "h");
    }
    let days: i64 = hours / 24;
    if hours < 24 * 8 {
        return both(days, "d", hours % 24, "h");
    }
    if hours < 24 * 365 * 2 {
        return one(days, "d");
    }
    let years: i64 = days / 365;
    if hours < 24 * 365 * 8 {
        return both(years, "y", days % 365, "d");
    }
    one(years, "y")
}

/// Formats how long ago something was created.
pub fn format_age(created: &Timestamp, now: &Timestamp) -> (out: String)
    ensures
        out@ == age_at(now@, created@),
{
    format_duration(now.seconds_since(created))
}

/// A clock that is ahead of the cluster's by up to two seconds shows an age of
/// nothing, never a negative one; one further ahead shows that the age is not
/// one.
pub proof fn skew_is_never_negative(now: int, then: int)
    requires
        now < then,
    ensures
        then - now < 1_000_000_000 ==> age_at(now, then) == single(0, "s"@),
        1_000_000_000 <= then - now < 2_000_000_000 ==> age_at(now, then) == "0s"@,
        then - now >= 2_000_000_000 ==> age_at(now, then) == "<invalid>"@,
{
}

/// How many seconds a unit of an age stands for.
pub open spec fn unit_seconds(unit: char) -> Option<int> {
    if unit == 's' {
        Some(1)
    } else if unit == 'm' {
        Some(60)
    } else if unit == 'h' {
        Some(3600)
    } else if unit == 'd' {
        Some(86400)
    } else if unit == 'y' {
        Some(31_536_000)
    } else {
        None
    }
}

/// What has been read of an age: the seconds so far, and the number whose unit
/// is still to come.
pub struct Tally {
    pub seconds: int,
    pub number: int,
}

/// Reads an age, character by character.
pub open spec fn tallied(text: Seq<char>) -> Option<Tally>
    decreases text.len(),
{
    if text.len() == 0 {
        Some(Tally { seconds: 0, number: 0 })
    } else {
        match (tallied(text.drop_last()), digit_value(text.last()), unit_seconds(text.last())) {
            (Some(t), Some(d), _) => Some(Tally { number: t.number * 10 + d, ..t }),
            (Some(t), None, Some(u)) => Some(
                Tally { seconds: t.seconds + t.number * u, number: 0 },
            ),
            _ => None,
        }
    }
}

/// The seconds that an age stands for; nothing where it is none.
pub open spec fn seconds_of(text: Seq<char>) -> Option<int> {
    match tallied(text) {
        Some(t) => if text.len() > 0 && t.number == 0 {
            Some(t.seconds)
        } else {
            None
        },
        None => None,
    }
}

/// A duration, rounded down to the step in which it is printed.
spec fn rounded_down(seconds: int) -> int {
    if seconds < 600 {
        seconds
    } else if seconds < 8 * 3600 {
        seconds / 60 * 60
    } else if seconds < 8 * 86400 {
        seconds / 3600 * 3600
    } else if seconds < 8 * 31_536_000 {
        seconds / 86400 * 86400
    } else {
        seconds / 31_536_000 * 31_536_000
    }
}

proof fn number_tallies(before: Seq<char>, n: nat)
    requires
        tallied(before) is Some,
        tallied(before)->0.number == 0,
    ensures
        tallied(before + decimal(n)) == Some(
            Tally { seconds: tallied(before)->0.seconds, number: n as int },
        ),
    decreases n,
{
    let whole = before + decimal(n);
    if n < 10 {
        assert(whole.drop_last() =~= before);
        assert(digit_value(whole.last()) == Some(n));
    } else {
        number_tallies(before, n / 10);
        assert(whole.drop_last() =~= before + decimal(n / 10));
        assert(digit_value(whole.last()) == Some(n % 10));
    }
}

proof fn single_tallies(before: Seq<char>, n: int, unit: Seq<char>)
    requires
        tallied(before) is Some,
        tallied(before)->0.number == 0,
        n >= 0,
        unit.len() == 1,
        unit_seconds(unit[0]) is Some,
    ensures
        tallied(before + single(n, unit)) == Some(
            Tally {
                seconds: tallied(before)->0.seconds + n * unit_seconds(unit[0])->0,
                number: 0,
            },
        ),
        (before + single(n, unit)).last() == unit[0],
{
    let whole = before + single(n, unit);
    number_tallies(before, n as nat);
    assert(whole.drop_last() =~= before + decimal(n as nat));
    assert(digit_value(unit[0]) is None);
}

proof fn double_tallies(n: int, unit: Seq<char>, rest: int, small: Seq<char>)
    requires
        n >= 0,
        rest >= 0,
        unit.len() == 1,
        unit_seconds(unit[0]) is Some,
        small.len() == 1,
        unit_seconds(small[0]) is Some,
    ensures
        seconds_of(double(n, unit, rest, small)) == Some(
            n * unit_seconds(unit[0])->0 + rest * unit_seconds(small[0])->0,
        ),
        double(n, unit, rest, small).last() == (if rest == 0 {
            unit[0]
        } else {
            small[0]
        }),
        seconds_of(single(n, unit)) == Some(n * unit_seconds(unit[0])->0),
        single(n, unit).last() == unit[0],
{
    let none = Seq::<char>::empty();
    single_tallies(none, n, unit);
    assert(none + single(n, unit) =~= single(n, unit));
    single_tallies(single(n, unit), rest, small);
    assert(rest == 0 ==> rest * unit_seconds(small[0])->0 == 0) by (nonlinear_arith);
}

/// What is printed of a duration is the duration, rounded down to the step it is
/// printed in.
proof fn human_rounds_down(seconds: int)
    requires
        seconds >= 0,
    ensures
        seconds_of(human(seconds)) == Some(rounded_down(seconds)),
        unit_seconds(human(seconds).last()) is Some,
        seconds - rounded_down(seconds) < unit_seconds(human(seconds).last())->0,
{
    reveal_strlit("s");
    reveal_strlit("m");
    reveal_strlit("h");
    reveal_strlit("d");
    reveal_strlit("y");
    let minutes = seconds / 60;
    let hours = seconds / 3600;
    let days = hours / 24;
    let years = days / 365;
    assert(unit_seconds('s') == Some(1int) && unit_seconds('m') == Some(60int) && unit_seconds('h')
        == Some(3600int) && unit_seconds('d') == Some(86400int) && unit_seconds('y') == Some(
        31_536_000int,
    ));
    if seconds < 120 {
        double_tallies(seconds, "s"@, 0, "s"@);
    } else if minutes < 180 {
        double_tallies(minutes, "m"@, seconds % 60, "s"@);
        assert(minutes * 60 + seconds % 60 == seconds);
    } else if hours < 48 {
        double_tallies(hours, "h"@, minutes % 60, "m"@);
        assert(hours == minutes / 60);
        assert(hours * 3600 + minutes % 60 * 60 == minutes * 60);
    } else if hours < 24 * 365 * 2 {
        double_tallies(days, "d"@, hours % 24, "h"@);
        assert(days == seconds / 86400);
        assert(days * 86400 + hours % 24 * 3600 == hours * 3600);
    } else {
        double_tallies(years, "y"@, days % 365, "d"@);
        assert(days == seconds / 86400);
        assert(years == seconds / 31_536_000);
        assert(years * 31_536_000 + days % 365 * 86400 == days * 86400);
    }
}

proof fn rounding_keeps_order(a: int, b: int)
    requires
        0 <= a <= b,
    ensures
        rounded_down(a) <= rounded_down(b) <= b,
{
    assert(rounded_down(a) <= a);
    if b < 600 {
    } else if b < 8 * 3600 {
        assert(b / 60 >= 10);
    } else if b < 8 * 86400 {
        assert(b / 3600 >= 8);
    } else if b < 8 * 31_536_000 {
        assert(b / 86400 >= 8);
    } else {
        assert(b / 31_536_000 >= 8);
    }
}

/// An age read back is at most the duration and less than one of the last unit
/// printed below it, and a longer duration never reads as a shorter one.
pub proof fn ages_read_back(a: int, b: int)
    requires
        0 <= a <= b,
    ensures
        seconds_of(human(a)) is Some,
        seconds_of(human(b)) is Some,
        seconds_of(human(a))->0 <= seconds_of(human(b))->0 <= b,
        unit_seconds(human(b).last()) is Some,
        b - seconds_of(human(b))->0 < unit_seconds(human(b).last())->0,
{
    human_rounds_down(a);
    human_rounds_down(b);
    rounding_keeps_order(a, b);
}

/// An age is called invalid exactly where what it is the age of lies more than a
/// second ahead.
pub proof fn only_skew_is_invalid(seconds: int)
    ensures
        human(seconds) == "<invalid>"@ <==> seconds < -1,
{
    reveal_strlit("<invalid>");
    reveal_strlit("0s");
    assert("<invalid>"@.last() == '>');
    if seconds >= 0 {
        human_rounds_down(seconds);
    } else if seconds == -1 {
        assert("0s"@.len() == 2);
    }
}

} // verus!
