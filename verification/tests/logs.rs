use beacon::k8s::logs::{
    LogBatcher, LogBuffer, LogEvent, LogInput, LogOptions, BATCH_LIMIT, MAX_BYTES, MAX_LINES,
};

fn line(index: usize) -> String {
    format!("line {index}")
}

#[test]
fn a_buffer_keeps_what_it_is_given() {
    let mut buffer = LogBuffer::new();
    buffer.extend((0..3).map(line).collect());

    assert_eq!(buffer.len(), 3);
    assert_eq!(buffer.dropped(), 0);
    assert_eq!(buffer.to_text(), "line 0\nline 1\nline 2");
}

/// The recent end is the one being read, so the old end is what goes.
#[test]
fn a_full_buffer_drops_the_oldest_lines() {
    let mut buffer = LogBuffer::new();
    buffer.extend((0..MAX_LINES + 10).map(line).collect());

    assert_eq!(buffer.len(), MAX_LINES);
    assert_eq!(buffer.dropped(), 10);
    assert_eq!(buffer.lines().first().copied(), Some("line 10"));
    assert_eq!(
        buffer.lines().last().copied(),
        Some(format!("line {}", MAX_LINES + 9).as_str())
    );
}

/// Fifty thousand lines of JSON is not the same memory as fifty thousand
/// lines of `ok`, so the byte ceiling bites first for the former.
#[test]
fn a_heavy_buffer_is_bounded_by_bytes_not_lines() {
    let mut buffer = LogBuffer::new();
    let fat = "x".repeat(64 * 1024);

    for _ in 0..500 {
        buffer.push(fat.clone());
    }

    assert!(buffer.len() < 500, "trimmed: {} lines", buffer.len());
    let bytes: usize = buffer.lines().iter().map(|line| line.len()).sum();
    assert!(bytes <= MAX_BYTES + fat.len());
    assert!(buffer.dropped() > 0);
}

/// A single line larger than the whole ceiling must still be shown, not
/// trimmed into nothing.
#[test]
fn one_enormous_line_survives() {
    let mut buffer = LogBuffer::new();
    buffer.push("y".repeat(MAX_BYTES * 2));

    assert_eq!(buffer.len(), 1);
    assert_eq!(buffer.dropped(), 0);
}

#[test]
fn clearing_forgets_the_drops_too() {
    let mut buffer = LogBuffer::new();
    buffer.extend((0..MAX_LINES + 5).map(line).collect());
    assert!(buffer.dropped() > 0);

    buffer.clear();
    assert!(buffer.is_empty());
    assert_eq!(buffer.dropped(), 0);
}

/// Previous logs are a finished thing; following them would hang waiting
/// for a container that already exited.
#[test]
fn previous_logs_are_not_followed() {
    let live = LogOptions::default().to_params();
    assert!(live.follow);
    assert!(!live.previous);

    let previous = LogOptions {
        previous: true,
        ..LogOptions::default()
    }
    .to_params();
    assert!(!previous.follow);
    assert!(previous.previous);
}

#[test]
fn options_reach_the_request() {
    let params = LogOptions {
        container: Some("sidecar".into()),
        previous: false,
        timestamps: true,
    }
    .to_params();

    assert_eq!(params.container.as_deref(), Some("sidecar"));
    assert!(params.timestamps);
    assert!(params.tail_lines.is_some(), "a bounded first screen");
}

/// Every line is either held or counted as dropped.
#[test]
fn nothing_is_dropped_uncounted() {
    let mut buffer = LogBuffer::new();
    for index in 0..MAX_LINES + 3 {
        buffer.push(line(index));
        assert_eq!(buffer.len() + buffer.dropped(), index + 1);
    }
}

#[test]
fn lines_are_sent_in_batches() {
    let mut batcher = LogBatcher::new();
    for index in 0..BATCH_LIMIT - 1 {
        assert!(batcher.step(LogInput::Line(line(index))).is_empty());
    }
    let events = batcher.step(LogInput::Line("last".into()));
    assert!(matches!(&events[..], [LogEvent::Lines(lines)] if lines.len() == BATCH_LIMIT));
    assert!(batcher.is_empty());
}

/// What is waiting goes out before the end of the stream is told.
#[test]
fn a_closing_stream_flushes_first() {
    let mut batcher = LogBatcher::new();
    assert!(batcher.step(LogInput::Line("bye".into())).is_empty());
    assert_eq!(
        batcher.step(LogInput::End),
        vec![LogEvent::Lines(vec!["bye".into()]), LogEvent::Closed]
    );
}

/// Nothing is dropped that both limits had room for.
#[test]
fn a_buffer_holds_the_longest_end_that_fits() {
    let mut buffer = LogBuffer::new();
    let half = "z".repeat(MAX_BYTES / 2);
    buffer.push("old".to_string());
    buffer.push(half.clone());
    buffer.push(half.clone());
    assert_eq!(buffer.lines(), [half.as_str(), half.as_str()]);
    assert_eq!(buffer.dropped(), 1);
    buffer.push("x".to_string());
    assert_eq!(buffer.lines(), [half.as_str(), "x"]);
    assert_eq!(buffer.dropped(), 2);
}
