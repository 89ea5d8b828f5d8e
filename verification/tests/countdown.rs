use lucid::countdown::{awake_left_status, fmt_remaining, pulse_frame, Countdown, CountdownTick};

#[test]
fn fmt_remaining_below_an_hour_is_minutes_and_seconds() {
    assert_eq!(fmt_remaining(0), "0:00");
    assert_eq!(fmt_remaining(5), "0:05");
    assert_eq!(fmt_remaining(59), "0:59");
    assert_eq!(fmt_remaining(60), "1:00");
    assert_eq!(fmt_remaining(605), "10:05");
    assert_eq!(fmt_remaining(900), "15:00");
    assert_eq!(fmt_remaining(3599), "59:59");
}

#[test]
fn fmt_remaining_from_an_hour_on_shows_hours() {
    assert_eq!(fmt_remaining(3600), "1:00:00");
    assert_eq!(fmt_remaining(3661), "1:01:01");
    assert_eq!(fmt_remaining(7322), "2:02:02");
    assert_eq!(fmt_remaining(28800), "8:00:00");
    assert_eq!(fmt_remaining(36000), "10:00:00");
    assert_eq!(fmt_remaining(u64::MAX), "5124095576030431:00:15");
}

#[test]
fn every_second_reads_differently() {
    let mut seen = std::collections::HashSet::new();
    for secs in 0..10_000u64 {
        assert!(seen.insert(fmt_remaining(secs)));
    }
}

#[test]
fn pulse_ping_pongs_over_five_frames() {
    let frames: Vec<usize> = (0..10).map(pulse_frame).collect();
    assert_eq!(frames, vec![0, 1, 2, 3, 4, 3, 2, 1, 0, 1]);
    assert_eq!(pulse_frame(usize::MAX), 1);
}

#[test]
fn awake_left_status_text() {
    assert_eq!(awake_left_status(125), "Awake — 2:05 left");
}

#[test]
fn countdown_shows_each_new_second_once() {
    let mut c = Countdown::new(Some(90));
    match c.tick(0) {
        CountdownTick::Frame { frame, title, status } => {
            assert_eq!(frame, 0);
            assert_eq!(title.as_deref(), Some("1:30"));
            assert_eq!(status.as_deref(), Some("Awake — 1:30 left"));
        }
        CountdownTick::Expired => panic!("expired too early"),
    }
    match c.tick(0) {
        CountdownTick::Frame { frame, title, status } => {
            assert_eq!(frame, 1);
            assert!(title.is_none());
            assert!(status.is_none());
        }
        CountdownTick::Expired => panic!("expired too early"),
    }
    match c.tick(31) {
        CountdownTick::Frame { frame, title, .. } => {
            assert_eq!(frame, 2);
            assert_eq!(title.as_deref(), Some("0:59"));
        }
        CountdownTick::Expired => panic!("expired too early"),
    }
    assert_eq!(c.step, 3);
    assert_eq!(c.last_shown, Some(59));
}

#[test]
fn countdown_expires_when_time_is_up() {
    let mut c = Countdown::new(Some(90));
    assert!(matches!(c.tick(90), CountdownTick::Expired));
    assert_eq!(c.step, 0);
    assert!(matches!(c.tick(1000), CountdownTick::Expired));
}

#[test]
fn countdown_without_length_never_expires_nor_shows_text() {
    let mut c = Countdown::new(None);
    for elapsed in [0u64, 10, u64::MAX] {
        match c.tick(elapsed) {
            CountdownTick::Frame { title, status, .. } => {
                assert!(title.is_none());
                assert!(status.is_none());
            }
            CountdownTick::Expired => panic!("an open-ended session never expires"),
        }
    }
    assert_eq!(c.step, 3);
}
