use spam_detector::author_data::{AuthorData, Reason};
use spam_detector::detector_params::DetectorParams;
use spam_detector::mean_length::MeanLength;
use spam_detector::reg_date::RegDate;

fn quiet_params() -> DetectorParams {
    DetectorParams::new(0, 3, 3, 10, 15, 0, RegDate::default())
}

#[test]
fn author_starts_with_the_first_message() {
    let author = AuthorData::new("hello".to_string(), 42);
    assert_eq!(author.total_messages(), 1);
    assert_eq!(author.avg_delay(), 0);
    assert_eq!(author.avg_message_length(), MeanLength { sum: 5, weight: 1 });
    assert_eq!(author.last_message_timestamp(), 42);
}

#[test]
fn author_length_counts_characters() {
    let author = AuthorData::new("h\u{00E9}llo \u{4E16}\u{754C}".to_string(), 0);
    assert_eq!(author.avg_message_length(), MeanLength { sum: 8, weight: 1 });
}

#[test]
fn second_message_inside_slow_mode_is_reported() {
    let params = DetectorParams::get_default();
    let mut author = AuthorData::new("first".to_string(), 0);
    assert_eq!(author.check_message(3, "anything at all", 5, &params), Some(Reason::SlowMode));
}

#[test]
fn slow_mode_is_a_strict_bound() {
    let params = quiet_params();
    let mut author = AuthorData::new("first".to_string(), 0);
    assert_eq!(author.check_message(4, "a", 5, &params), Some(Reason::SlowMode));
    assert_eq!(author.check_message(9, "b", 5, &params), None);
    assert_eq!(author.check_message(9, "c", 5, &params), Some(Reason::SlowMode));
    assert_eq!(author.check_message(9, "d", 0, &params), None);
}

#[test]
fn slow_mode_wins_over_every_other_check() {
    let params = DetectorParams::new(2000, 2, 2, 1, 1, 2, RegDate::default());
    let mut fast = AuthorData::new("the very same long message".to_string(), 0);
    assert_eq!(
        fast.check_message(1, "the very same long message", 0, &params),
        Some(Reason::TooLong(MeanLength { sum: 52, weight: 2 }))
    );
    let mut faster = AuthorData::new("the very same long message".to_string(), 0);
    assert_eq!(
        faster.check_message(2, "the very same long message", 0, &params),
        Some(Reason::TooFast(1))
    );
    let mut silent = AuthorData::new("the very same long message".to_string(), 0);
    assert_eq!(
        silent.check_message(2, "the very same long message", 5, &params),
        Some(Reason::SlowMode)
    );
    let mut slow = AuthorData::new("the very same long message".to_string(), 0);
    assert_eq!(
        slow.check_message(1, "the very same long message", 5, &params),
        Some(Reason::SlowMode)
    );
}

#[test]
fn slow_mode_leaves_both_means_as_they_were() {
    let params = quiet_params();
    let mut author = AuthorData::new("0123456789".to_string(), 0);
    assert_eq!(author.check_message(10, "01234567", 0, &params), None);
    assert_eq!(author.avg_delay(), 5);
    assert_eq!(author.avg_message_length(), MeanLength { sum: 18, weight: 2 });
    assert_eq!(author.check_message(12, "a much longer message than before", 5, &params), Some(Reason::SlowMode));
    assert_eq!(author.avg_delay(), 5);
    assert_eq!(author.avg_message_length(), MeanLength { sum: 18, weight: 2 });
    assert_eq!(author.total_messages(), 3);
    assert_eq!(author.last_message_timestamp(), 12);
}

#[test]
fn mean_length_rescales_after_slow_mode() {
    let params = quiet_params();
    let mut author = AuthorData::new("0123456789".to_string(), 0);
    assert_eq!(author.check_message(1, "ignored", 5, &params), Some(Reason::SlowMode));
    assert_eq!(author.check_message(10, "abcd", 5, &params), None);
    assert_eq!(author.avg_message_length(), MeanLength { sum: 24, weight: 3 });
    assert_eq!(author.avg_delay(), 3);
}

#[test]
fn mean_delay_rounds_down_at_every_step() {
    let params = quiet_params();
    let mut author = AuthorData::new("a".to_string(), 100);
    assert_eq!(author.check_message(103, "b", 0, &params), None);
    assert_eq!(author.avg_delay(), 1);
    assert_eq!(author.check_message(106, "c", 0, &params), None);
    assert_eq!(author.avg_delay(), 1);
    assert_eq!(author.check_message(109, "d", 0, &params), None);
    assert_eq!(author.avg_delay(), 1);
    assert_eq!(author.check_message(119, "e", 0, &params), None);
    assert_eq!(author.avg_delay(), 2);
    assert_eq!(author.total_messages(), 5);
}

#[test]
fn mean_delay_follows_the_recurrence() {
    let params = quiet_params();
    let mut author = AuthorData::new("a".to_string(), 0);
    assert_eq!(author.check_message(10, "b", 0, &params), None);
    assert_eq!(author.avg_delay(), 5);
    assert_eq!(author.check_message(30, "c", 0, &params), None);
    assert_eq!(author.avg_delay(), 10);
    assert_eq!(author.check_message(60, "d", 0, &params), None);
    assert_eq!(author.avg_delay(), 15);
    assert_eq!(author.check_message(60, "e", 0, &params), None);
    assert_eq!(author.avg_delay(), 12);
}

#[test]
fn mean_delay_takes_the_largest_delay() {
    let params = quiet_params();
    let mut author = AuthorData::new("a".to_string(), 0);
    assert_eq!(author.check_message(u32::MAX as u64, "b", 0, &params), None);
    assert_eq!(author.avg_delay(), u32::MAX / 2);
    assert_eq!(author.check_message(2 * (u32::MAX as u64), "c", 0, &params), None);
    assert_eq!(author.avg_delay(), 2863311529);
}

#[test]
fn too_fast_fires_once_enough_messages_came() {
    let params = DetectorParams::get_default();
    let mut author = AuthorData::new("a".to_string(), 0);
    assert_eq!(author.check_message(500, "b", 0, &params), None);
    assert_eq!(author.avg_delay(), 250);
    assert_eq!(author.check_message(1000, "c", 0, &params), Some(Reason::TooFast(333)));
    assert_eq!(author.avg_delay(), 333);
    assert_eq!(author.check_message(1500, "d", 0, &params), Some(Reason::TooFast(374)));
}

#[test]
fn too_fast_leaves_the_mean_length_as_it_was() {
    let params = DetectorParams::get_default();
    let mut author = AuthorData::new("a".to_string(), 0);
    assert_eq!(author.check_message(500, "bb", 0, &params), None);
    assert_eq!(author.avg_message_length(), MeanLength { sum: 3, weight: 2 });
    assert_eq!(author.check_message(1000, "a long message that is not measured", 0, &params), Some(Reason::TooFast(333)));
    assert_eq!(author.avg_message_length(), MeanLength { sum: 3, weight: 2 });
}

#[test]
fn equal_timestamps_are_never_too_fast() {
    let params = DetectorParams::get_default();
    let mut author = AuthorData::new("a".to_string(), 7);
    assert_eq!(author.check_message(7, "b", 0, &params), None);
    assert_eq!(author.check_message(7, "c", 0, &params), None);
    assert_eq!(author.check_message(7, "d", 0, &params), None);
    assert_eq!(author.avg_delay(), 0);
}

#[test]
fn too_long_fires_from_the_fifth_message() {
    let params = DetectorParams::new(0, 3, 3, 10, 15, 5, RegDate::default());
    let texts = [
        "aaaaaaaaaaaaaaaaaaaa",
        "bbbbbbbbbbbbbbbbbbbb",
        "cccccccccccccccccccc",
        "dddddddddddddddddddd",
        "eeeeeeeeeeeeeeeeeeee",
    ];
    let mut author = AuthorData::new(texts[0].to_string(), 0);
    assert_eq!(author.check_message(10, texts[1], 0, &params), None);
    assert_eq!(author.check_message(20, texts[2], 0, &params), None);
    assert_eq!(author.check_message(30, texts[3], 0, &params), None);
    assert_eq!(
        author.check_message(40, texts[4], 0, &params),
        Some(Reason::TooLong(MeanLength { sum: 100, weight: 5 }))
    );
}

#[test]
fn too_long_compares_the_mean_without_rounding() {
    let params = DetectorParams::new(0, 3, 3, 100, 15, 4, RegDate::default());
    let mut author = AuthorData::new("1234567890123".to_string(), 0);
    assert_eq!(author.check_message(1, "12345678901234", 0, &params), None);
    assert_eq!(author.check_message(2, "1234567890123456", 0, &params), None);
    assert_eq!(
        author.check_message(3, "12345678901234567", 0, &params),
        Some(Reason::TooLong(MeanLength { sum: 60, weight: 4 }))
    );
    let mut shorter = AuthorData::new("1234567890123".to_string(), 0);
    assert_eq!(shorter.check_message(1, "12345678901234", 0, &params), None);
    assert_eq!(shorter.check_message(2, "1234567890123456", 0, &params), None);
    assert_eq!(shorter.check_message(3, "1234567890123456", 0, &params), None);
    assert_eq!(shorter.avg_message_length(), MeanLength { sum: 59, weight: 4 });
}

#[test]
fn third_similar_message_is_reported() {
    let params = quiet_params();
    let mut author = AuthorData::new("hello world!".to_string(), 0);
    assert_eq!(author.check_message(10, "hello world!", 0, &params), None);
    assert_eq!(author.check_message(20, "hello world!", 0, &params), Some(Reason::Similar));
    assert_eq!(author.check_message(30, "hello world!", 0, &params), Some(Reason::Similar));
}

#[test]
fn nearly_equal_messages_count_as_repeats() {
    let params = quiet_params();
    let mut author = AuthorData::new("buy followers now".to_string(), 0);
    assert_eq!(author.check_message(10, "buy followers now!", 0, &params), None);
    assert_eq!(author.check_message(20, "buy followers noww!", 0, &params), Some(Reason::Similar));
}

#[test]
fn different_messages_are_not_repeats() {
    let params = quiet_params();
    let mut author = AuthorData::new("the first message".to_string(), 0);
    assert_eq!(author.check_message(10, "another thing entirely", 0, &params), None);
    assert_eq!(author.check_message(20, "yet something unrelated", 0, &params), None);
    assert_eq!(author.check_message(30, "what a lovely broadcast", 0, &params), None);
    assert_eq!(author.check_message(40, "the first message", 0, &params), None);
    assert_eq!(author.check_message(50, "the first message", 0, &params), Some(Reason::Similar));
}

#[test]
fn short_messages_are_never_compared() {
    let params = quiet_params();
    let mut author = AuthorData::new("lol".to_string(), 0);
    assert_eq!(author.check_message(10, "lol", 0, &params), None);
    assert_eq!(author.check_message(20, "lol", 0, &params), None);
    assert_eq!(author.check_message(30, "lol", 0, &params), None);
    assert_eq!(author.check_message(40, "", 0, &params), None);
    assert_eq!(author.check_message(50, "123456789", 0, &params), None);
    assert_eq!(author.check_message(60, "123456789", 0, &params), None);
    assert_eq!(author.check_message(70, "123456789", 0, &params), None);
}

#[test]
fn only_the_oldest_similar_shape_is_counted() {
    let params = quiet_params();
    let mut author = AuthorData::new("aaaaaaaaaa".to_string(), 0);
    assert_eq!(author.check_message(1, "aaaaaaabbb", 0, &params), None);
    assert_eq!(author.check_message(2, "aaaaaaaabb", 0, &params), None);
    assert_eq!(author.check_message(3, "aaaaabbbbb", 0, &params), None);
    assert_eq!(author.check_message(4, "aaaaabbbbb", 0, &params), Some(Reason::Similar));
}

#[test]
fn author_accepts_only_what_can_be_checked() {
    let author = AuthorData::new("a".to_string(), 100);
    assert!(author.accepts(100));
    assert!(author.accepts(101));
    assert!(author.accepts(100 + u32::MAX as u64));
    assert!(!author.accepts(99));
    assert!(!author.accepts(101 + u32::MAX as u64));
}
