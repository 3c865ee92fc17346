use integration_aggressor::clock::{clock_now, date_stamp_now, span_text_of};

#[test]
fn the_clock_shows_hours_minutes_and_seconds() {
    let clock = clock_now();
    let parts: Vec<u32> = clock.split(':').map(|p| p.parse().unwrap()).collect();
    assert_eq!(clock.len(), 8);
    assert_eq!(parts.len(), 3);
    assert!(parts[0] < 24 && parts[1] < 60 && parts[2] <= 60);
}

#[test]
fn the_date_stamp_fits_a_file_name() {
    let stamp = date_stamp_now();
    let (date, time) = stamp.split_once('_').unwrap();
    assert_eq!(date.len(), 8);
    assert_eq!(time.len(), 6);
    assert!(date.chars().all(|c| c.is_ascii_digit()));
    assert!(time.chars().all(|c| c.is_ascii_digit()));
    assert!(date[..4].parse::<u32>().unwrap() >= 2024);
}

#[test]
fn the_clock_is_the_local_one() {
    let pattern = "%Y%m%d_%H%M%S";
    let before = chrono::Local::now().format(pattern).to_string();
    let stamp = date_stamp_now();
    let after = chrono::Local::now().format(pattern).to_string();
    assert!(before <= stamp && stamp <= after);
}

#[test]
fn spans_are_hours_minutes_and_seconds() {
    assert_eq!(span_text_of(0), "00:00:00");
    assert_eq!(span_text_of(59), "00:00:59");
    assert_eq!(span_text_of(3661), "01:01:01");
    assert_eq!(span_text_of(359999), "99:59:59");
    assert_eq!(span_text_of(360000), "100:00:00");
}

#[test]
fn the_parts_of_a_span_add_up() {
    let text = span_text_of(86399);
    let parts: Vec<u64> = text.split(':').map(|p| p.parse().unwrap()).collect();
    assert_eq!(parts[0] * 3600 + parts[1] * 60 + parts[2], 86399);
}
