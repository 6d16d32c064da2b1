//! Points in time.
use vstd::prelude::*;

use k8s_openapi::jiff;

verus! {

/// The first representable instant, in nanoseconds since the Unix epoch.
pub const EARLIEST: i128 = -377_705_023_201_000_000_000;

/// The last representable instant, in nanoseconds since the Unix epoch.
pub const LATEST: i128 = 253_402_207_200_999_999_999;

/// A point in time: nanoseconds since the Unix epoch, between the years -9999
/// and 9999.
#[derive(Clone, Copy, PartialEq, Eq, Structural, Debug)]
pub struct Timestamp {
    nanoseconds: i128,
}

/// Whether an instant is one that a timestamp can hold.
pub open spec fn representable(nanoseconds: int) -> bool {
    EARLIEST <= nanoseconds <= LATEST
}

/// The whole seconds of a span of nanoseconds, without its fraction.
pub open spec fn whole_seconds(nanoseconds: int) -> int {
    if nanoseconds >= 0 {
        nanoseconds / 1_000_000_000
    } else {
        -((-nanoseconds) / 1_000_000_000)
    }
}

/// What an optional timestamp holds.
pub open spec fn instant_of(t: Option<Timestamp>) -> Option<int> {
    match t {
        Some(t) => Some(t@),
        None => None,
    }
}

/// The instant that a text names, in nanoseconds since the Unix epoch.
pub uninterp spec fn parsed_timestamp(text: Seq<char>) -> Option<int>;

/// `jiff::Timestamp`'s `from_str` and `as_nanosecond`, under a name: the
/// instant that the text names, nothing where it names none. An instant lies
/// between `jiff::Timestamp::MIN` and `jiff::Timestamp::MAX`.
#[verifier::external_body]
fn parse_timestamp(text: &str) -> (r: Option<i128>)
    ensures
        match r {
            Some(n) => parsed_timestamp(text@) == Some(n as int) && representable(n as int),
            None => parsed_timestamp(text@) is None,
        },
{
    match text.parse::<jiff::Timestamp>() {
        Ok(t) => Some(t.as_nanosecond()),
        Err(_) => None,
    }
}

/// Whether a pattern asks for nothing but the parts of a date and of a time of
/// day, each a letter behind a percent sign.
pub open spec fn plain_pattern(pattern: Seq<char>) -> bool {
    forall|i: int|
        0 <= i < pattern.len() && (#[trigger] pattern[i]) == '%' ==> i + 1 < pattern.len() && (
        pattern[i + 1] == 'Y' || pattern[i + 1] == 'm' || pattern[i + 1] == 'd' || pattern[i + 1]
            == 'H' || pattern[i + 1] == 'M' || pattern[i + 1] == 'S')
}

/// An instant in UTC, written by a pattern.
pub uninterp spec fn timestamp_text(nanoseconds: int, pattern: Seq<char>) -> Seq<char>;

/// `jiff::fmt::strtime::format`, under a name. Nothing is known of the text but
/// that the instant and the pattern determine it. A pattern may only ask for
/// what every instant has, so that the call does not fail.
#[verifier::external_body]
fn write_timestamp(nanoseconds: i128, pattern: &str) -> (r: String)
    requires
        representable(nanoseconds as int),
        plain_pattern(pattern@),
    ensures
        r@ == timestamp_text(nanoseconds as int, pattern@),
{
    let at = jiff::Timestamp::from_nanosecond(nanoseconds).unwrap_or_default();
    jiff::fmt::strtime::format(pattern, at).unwrap_or_default()
}

/// An instant the way the API writes it: in RFC 3339, to the second, in UTC.
pub open spec fn api_text(nanoseconds: int) -> Seq<char> {
    timestamp_text(nanoseconds, "%Y-%m-%dT%H:%M:%SZ"@)
}

/// An instant in RFC 3339, with as many digits of its fraction as it needs.
pub uninterp spec fn timestamp_display(nanoseconds: int) -> Seq<char>;

/// `jiff::Timestamp`'s `Display`, under a name. Nothing is known of the text but
/// that the instant determines it.
#[verifier::external_body]
fn display_timestamp(nanoseconds: i128) -> (r: String)
    requires
        representable(nanoseconds as int),
    ensures
        r@ == timestamp_display(nanoseconds as int),
{
    jiff::Timestamp::from_nanosecond(nanoseconds).unwrap_or_default().to_string()
}

impl View for Timestamp {
    type V = int;

    closed spec fn view(&self) -> int {
        self.nanoseconds as int
    }
}

impl Timestamp {
    #[verifier::type_invariant]
    closed spec fn in_range(self) -> bool {
        representable(self.nanoseconds as int)
    }

    /// The instant that many nanoseconds after the Unix epoch.
    pub fn from_nanosecond(nanoseconds: i128) -> (r: Option<Timestamp>)
        ensures
            instant_of(r) == (if representable(nanoseconds as int) {
                Some(nanoseconds as int)
            } else {
                None
            }),
    {
        if EARLIEST <= nanoseconds && nanoseconds <= LATEST {
            Some(Timestamp { nanoseconds })
        } else {
            None
        }
    }

    /// The nanoseconds since the Unix epoch.
    pub fn as_nanosecond(&self) -> (r: i128)
        ensures
            r == self@,
            representable(r as int),
    {
        proof {
            use_type_invariant(&*self);
        }
        self.nanoseconds
    }

    /// Reads a timestamp.
    pub fn parse(text: &str) -> (r: Option<Timestamp>)
        ensures
            instant_of(r) == parsed_timestamp(text@),
    {
        match parse_timestamp(text) {
            Some(nanoseconds) => Some(Timestamp { nanoseconds }),
            None => None,
        }
    }

    /// Writes the timestamp the way the API does.
    pub fn to_text(&self) -> (r: String)
        ensures
            r@ == api_text(self@),
    {
        proof {
            use_type_invariant(&*self);
            reveal_strlit("%Y-%m-%dT%H:%M:%SZ");
        }
        write_timestamp(self.nanoseconds, "%Y-%m-%dT%H:%M:%SZ")
    }

    /// Writes the timestamp in full.
    pub fn display(&self) -> (r: String)
        ensures
            r@ == timestamp_display(self@),
    {
        proof {
            use_type_invariant(&*self);
        }
        display_timestamp(self.nanoseconds)
    }

    /// The whole seconds from `other` to this instant.
    pub fn seconds_since(&self, other: &Timestamp) -> (r: i64)
        ensures
            r == whole_seconds(self@ - other@),
    {
        proof {
            use_type_invariant(&*self);
            use_type_invariant(&*other);
        }
        let span: i128 = self.nanoseconds - other.nanoseconds;
        if span >= 0 {
            (span / 1_000_000_000) as i64
        } else {
            -(((-span) / 1_000_000_000) as i64)
        }
    }

    /// The whole seconds since the Unix epoch.
    pub fn as_second(&self) -> (r: i64)
        ensures
            r == whole_seconds(self@),
    {
        proof {
            use_type_invariant(&*self);
        }
        if self.nanoseconds >= 0 {
            (self.nanoseconds / 1_000_000_000) as i64
        } else {
            -(((-self.nanoseconds) / 1_000_000_000) as i64)
        }
    }

    /// Whether this instant comes after another.
    pub fn after(&self, other: &Timestamp) -> (r: bool)
        ensures
            r == (self@ > other@),
    {
        self.nanoseconds > other.nanoseconds
    }
}

} // verus!
