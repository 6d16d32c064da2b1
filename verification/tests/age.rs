use beacon::base::time::Timestamp;
use beacon::columns::age::{format_age, format_duration};

const MINUTE: i64 = 60;
const HOUR: i64 = 60 * MINUTE;
const DAY: i64 = 24 * HOUR;

/// Every expectation here is what `kubectl get` prints for the same age.
#[test]
fn matches_kubectl() {
    let cases = [
        (0, "0s"),
        (1, "1s"),
        (59, "59s"),
        (119, "119s"),
        (2 * MINUTE, "2m"),
        (2 * MINUTE + 5, "2m5s"),
        (9 * MINUTE + 59, "9m59s"),
        (10 * MINUTE, "10m"),
        (179 * MINUTE, "179m"),
        (3 * HOUR, "3h"),
        (3 * HOUR + 25 * MINUTE, "3h25m"),
        (7 * HOUR + 59 * MINUTE, "7h59m"),
        (8 * HOUR, "8h"),
        (47 * HOUR, "47h"),
        (2 * DAY, "2d"),
        (2 * DAY + 3 * HOUR, "2d3h"),
        (7 * DAY, "7d"),
        (8 * DAY, "8d"),
        (400 * DAY, "400d"),
        (730 * DAY, "2y"),
        (731 * DAY, "2y1d"),
    ];

    for (seconds, expected) in cases {
        assert_eq!(format_duration(seconds), expected, "for {seconds}s");
    }
}

/// Clock skew between the workstation and the API server routinely produces
/// objects created "in the future". kubectl shows 0s rather than a negative.
#[test]
fn clock_skew_does_not_produce_negative_ages() {
    assert_eq!(format_duration(-1), "0s");
    assert_eq!(format_duration(-2), "<invalid>");
}

fn at(text: &str) -> Timestamp {
    Timestamp::parse(text).expect("a timestamp")
}

#[test]
fn an_age_is_the_time_since_creation() {
    let now = at("2026-09-20T12:00:00Z");
    assert_eq!(format_age(&at("2026-09-17T12:00:00Z"), &now), "3d");
    assert_eq!(format_age(&at("2026-09-20T11:59:59.2Z"), &now), "0s");
    assert_eq!(format_age(&now, &now), "0s");
}

/// A second of skew is forgiven; more than that is not an age.
#[test]
fn an_object_from_the_future_has_no_age() {
    let now = at("2026-09-20T12:00:00Z");
    assert_eq!(format_age(&at("2026-09-20T12:00:01Z"), &now), "0s");
    assert_eq!(format_age(&at("2026-09-20T12:05:00Z"), &now), "<invalid>");
}

#[test]
fn the_largest_ages_are_whole_years() {
    assert_eq!(format_duration(8 * 365 * DAY), "8y");
    assert_eq!(format_duration(8 * 365 * DAY + 30 * DAY), "8y");
    assert_eq!(format_duration(i64::MAX), "292471208677y");
    assert_eq!(format_duration(i64::MIN), "<invalid>");
}

/// What an age stands for, read back from its text.
fn seconds(text: &str) -> i64 {
    let mut total = 0;
    let mut number = 0;
    for c in text.chars() {
        match c {
            's' => total += number,
            'm' => total += number * MINUTE,
            'h' => total += number * HOUR,
            'd' => total += number * DAY,
            'y' => total += number * 365 * DAY,
            digit => {
                number = number * 10 + i64::from(digit.to_digit(10).expect("a digit"));
                continue;
            }
        }
        number = 0;
    }
    total
}

#[test]
fn an_age_reads_back_rounded_down() {
    let mut last = 0;
    for step in 0..20_000i64 {
        let age = step * 16_001;
        let shown = seconds(&format_duration(age));
        assert!(last <= shown && shown <= age, "for {age}");
        last = shown;
    }
    assert_eq!(seconds(&format_duration(599)), 599);
    assert_eq!(seconds(&format_duration(8 * HOUR + 59)), 8 * HOUR);
}
