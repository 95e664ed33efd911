use ayame::model::{Timestamp, TimestampError};
use ayame::text::IntErrorKind;

#[test]
fn some_tests() {
    let stamp = Timestamp::from_string("00:12:15.00").unwrap();
    assert_eq!(stamp.hours(), 0);
    assert_eq!(stamp.minutes(), 12);
    assert_eq!(stamp.seconds(), 15);
    assert_eq!(stamp.milliseconds(), 0);
    assert_eq!(stamp.to_string(), "00:12:15.00".to_string());
    let stamp = Timestamp::from_string("12:15").unwrap();
    assert_eq!(stamp.hours(), 0);
    assert_eq!(stamp.minutes(), 12);
    assert_eq!(stamp.seconds(), 15);
    assert_eq!(stamp.milliseconds(), 0);
    assert_eq!(stamp.to_string(), "00:12:15.00".to_string());
    let stamp = Timestamp::from_string("735").unwrap();
    assert_eq!(stamp.hours(), 0);
    assert_eq!(stamp.minutes(), 12);
    assert_eq!(stamp.seconds(), 15);
    assert_eq!(stamp.milliseconds(), 0);
    assert_eq!(stamp.to_string(), "00:12:15.00".to_string());
    let stamp = Timestamp::from_string("05.50").unwrap();
    assert_eq!(stamp.hours(), 0);
    assert_eq!(stamp.minutes(), 0);
    assert_eq!(stamp.seconds(), 5);
    assert_eq!(stamp.milliseconds(), 50);
    assert_eq!(stamp.to_string(), "00:00:05.50".to_string());
}

#[test]
fn some_more_tests() {
    let stamp = Timestamp::from(0, 12, 15, 0).unwrap();
    assert_eq!(stamp.hours(), 0);
    assert_eq!(stamp.minutes(), 12);
    assert_eq!(stamp.seconds(), 15);
    assert_eq!(stamp.milliseconds(), 0);
    assert_eq!(stamp.to_string(), "00:12:15.00".to_string());
}

#[test]
fn text_of_a_time_stamp_reads_back() {
    for (m, s, ms) in [(0u32, 0u32, 0u32), (59, 59, 1000), (7, 3, 9), (12, 15, 99), (0, 1, 100)] {
        let stamp = Timestamp::from(0, m, s, ms).unwrap();
        let text = stamp.to_string();
        assert!(Timestamp::is_below_an_hour(&text));
        let back = Timestamp::from_string(&text).unwrap();
        assert_eq!(
            (back.hours(), back.minutes(), back.seconds(), back.milliseconds()),
            (0, m, s, ms)
        );
    }
}

#[test]
fn fields_out_of_range_are_refused_in_order() {
    let e = Timestamp::from(0, 61, 99, 2000).unwrap_err();
    assert_eq!(e.message(), "Expected minutes amount below 60, got 61");
    let e = Timestamp::from(0, 60, 61, 2000).unwrap_err();
    assert_eq!(e.message(), "Expected seconds amount below 60, got 61");
    let e = Timestamp::from(0, 60, 60, 1001).unwrap_err();
    assert_eq!(e.message(), "Expected milliseconds amount below 1000, got 1001");
    assert!(Timestamp::from(5, 60, 60, 1000).is_ok());
}

#[test]
fn seconds_split_into_minutes_and_seconds() {
    let t = Timestamp::from_secs(3599).unwrap();
    assert_eq!((t.hours(), t.minutes(), t.seconds(), t.milliseconds()), (0, 59, 59, 0));
    assert_eq!(t.in_seconds(), 3599);
    let t = Timestamp::from_secs_with_ms(61, 7).unwrap();
    assert_eq!((t.minutes(), t.seconds(), t.milliseconds()), (1, 1, 7));
    let e = Timestamp::from_secs_with_ms(10, 1001).unwrap_err();
    assert_eq!(e.message(), "Expected milliseconds amount below 1000, got 1001");
}

#[test]
fn texts_that_do_not_read() {
    match Timestamp::from_string("1:2:3:4").unwrap_err() {
        TimestampError::Format(e) => assert_eq!(e.message(), "Invalid amount of arguments"),
        other => panic!("unexpected {:?}", other),
    }
    match Timestamp::from_string("1:2:3:4.5").unwrap_err() {
        TimestampError::Format(e) => assert_eq!(e.message(), "Invalid amount of arguments"),
        other => panic!("unexpected {:?}", other),
    }
    match Timestamp::from_string("ab").unwrap_err() {
        TimestampError::Parse(k) => assert_eq!(k, IntErrorKind::InvalidDigit),
        other => panic!("unexpected {:?}", other),
    }
    match Timestamp::from_string("").unwrap_err() {
        TimestampError::Parse(k) => assert_eq!(k, IntErrorKind::Empty),
        other => panic!("unexpected {:?}", other),
    }
    match Timestamp::from_string("99999999999x").unwrap_err() {
        TimestampError::Parse(k) => assert_eq!(k, IntErrorKind::PosOverflow),
        other => panic!("unexpected {:?}", other),
    }
    let e = Timestamp::from_string("+").unwrap_err();
    assert_eq!(e.message(), "invalid digit found in string");
}

#[test]
fn texts_of_an_hour_or_more_are_outside_the_domain() {
    assert!(!Timestamp::is_below_an_hour("01:00:00"));
    assert!(!Timestamp::is_below_an_hour("60:00"));
    assert!(Timestamp::is_below_an_hour("59:59.999"));
    assert!(Timestamp::is_below_an_hour("not a time"));
}

#[test]
fn dots_beyond_the_first_move_pieces_to_the_front() {
    // "a.b.c" reads c as minutes, a as seconds and b as milliseconds
    let t = Timestamp::from_string("3.4.2").unwrap();
    assert_eq!((t.minutes(), t.seconds(), t.milliseconds()), (2, 3, 4));
    let t = Timestamp::from_string("+7.5").unwrap();
    assert_eq!((t.seconds(), t.milliseconds()), (7, 5));
}
