use bike::time::LevelTime;

#[test]
fn zero_time_text() {
    assert_eq!(LevelTime::new(0).fmt(), "00:00:00");
}

#[test]
fn time_text_pads_each_part_to_two_digits() {
    assert_eq!(LevelTime::new(5).fmt(), "00:00:05");
    assert_eq!(LevelTime::new(12345).fmt(), "02:03:45");
    assert_eq!(LevelTime::new(100).fmt(), "00:01:00");
    assert_eq!(LevelTime::new(6000).fmt(), "01:00:00");
    assert_eq!(LevelTime::new(5999).fmt(), "00:59:99");
    assert_eq!(LevelTime::new(59 * 6000 + 59 * 100 + 99).fmt(), "59:59:99");
}

#[test]
fn time_text_keeps_long_minutes() {
    assert_eq!(LevelTime::new(99 * 6000).fmt(), "99:00:00");
    assert_eq!(LevelTime::new(100 * 6000).fmt(), "100:00:00");
    assert_eq!(LevelTime::new(4294967294).fmt(), "715827:52:94");
}

#[test]
fn time_text_is_what_the_formatter_writes() {
    for t in [0u32, 1, 9, 10, 99, 100, 101, 5999, 6000, 6001, 123456, 599999, 600000, 4294967294] {
        let expected = format!("{:0>2}:{:0>2}:{:0>2}", t / (100 * 60), t / 100 % 60, t % 100);
        assert_eq!(LevelTime::new(t).fmt(), expected);
    }
}

#[test]
fn invalid_time_text() {
    assert_eq!(LevelTime::invalid().fmt(), "--:--:--");
    assert_eq!(LevelTime::new(0xffff_ffff).fmt(), "--:--:--");
    assert_eq!(LevelTime::invalid(), LevelTime(0xffff_ffff));
}

#[test]
fn new_time_holds_the_hundredths() {
    assert_eq!(LevelTime::new(4711).0, 4711);
    assert_eq!(LevelTime::new(4711), LevelTime(4711));
}
