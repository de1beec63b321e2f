use spam_detector::author_data::Reason;
use spam_detector::chat_action::{sort_by_timestamp, Badges, ChatAction};
use spam_detector::detector_params::DetectorParams;
use spam_detector::reg_date::RegDate;
use spam_detector::stream_data::{Step, Suspect};
use spam_detector::{Detector, ProcessingResult};

fn message(id: &str, author: &str, timestamp: u64, content: &str) -> ChatAction {
    ChatAction::Message {
        id: id.to_string(),
        author: author.to_string(),
        timestamp,
        content: content.to_string(),
        badges: None,
        context_params: format!("menu-{}", id),
    }
}

fn support(author: &str, timestamp: u64) -> ChatAction {
    ChatAction::Support { author: author.to_string(), timestamp }
}

fn retracted(author: &str, timestamp: u64) -> ChatAction {
    ChatAction::RetractedMessage { author: author.to_string(), timestamp }
}

fn report(id: &str, author: &str, reason: Reason) -> ProcessingResult {
    ProcessingResult {
        message_id: id.to_string(),
        author: author.to_string(),
        menu_param: format!("menu-{}", id),
        reason,
    }
}

fn registered_lately() -> Result<Option<RegDate>, String> {
    Ok(Some(RegDate::new(2023, 6, 1)))
}

fn settled_long_ago() -> Result<Option<RegDate>, String> {
    Ok(Some(RegDate::new(2010, 6, 1)))
}

/// Feeds one event and answers a lookup, if one is asked for, with `answer`.
fn feed(
    detector: &mut Detector,
    action: ChatAction,
    answer: Result<Option<RegDate>, String>,
) -> Result<Option<ProcessingResult>, String> {
    assert!(detector.accepts(&action));
    match detector.process_message(action) {
        Step::Done(result) => Ok(result),
        Step::Lookup(suspect) => detector.resume(suspect, answer),
    }
}

fn similarity_only() -> DetectorParams {
    DetectorParams::new(0, 3, 3, 10, 15, 0, RegDate::new(2020, 10, 1))
}

#[test]
fn slow_mode_scenario_reports_the_second_message() {
    let mut detector = Detector::new(DetectorParams::get_default());
    detector.set_slow_mode(5);
    assert_eq!(feed(&mut detector, message("1", "ann", 0, "good evening"), registered_lately()), Ok(None));
    assert_eq!(
        feed(&mut detector, message("2", "ann", 3000, "something else"), registered_lately()),
        Ok(Some(report("2", "ann", Reason::SlowMode)))
    );
    assert!(detector.is_author_spammer("ann"));
}

#[test]
fn fast_author_scenario_is_reported_from_the_third_message() {
    let mut detector = Detector::new(DetectorParams::get_default());
    assert_eq!(feed(&mut detector, message("1", "bob", 0, "a"), registered_lately()), Ok(None));
    assert_eq!(feed(&mut detector, message("2", "bob", 500_000, "b"), registered_lately()), Ok(None));
    assert_eq!(
        feed(&mut detector, message("3", "bob", 1_000_000, "c"), registered_lately()),
        Ok(Some(report("3", "bob", Reason::TooFast(333))))
    );
    assert_eq!(
        feed(&mut detector, message("4", "bob", 1_500_000, "d"), registered_lately()),
        Ok(Some(report("4", "bob", Reason::TooFast(333))))
    );
}

#[test]
fn messages_half_a_second_apart_have_no_delay_in_seconds() {
    let mut detector = Detector::new(DetectorParams::get_default());
    assert_eq!(feed(&mut detector, message("1", "bob", 0, "a"), registered_lately()), Ok(None));
    assert_eq!(feed(&mut detector, message("2", "bob", 500, "b"), registered_lately()), Ok(None));
    assert_eq!(feed(&mut detector, message("3", "bob", 1000, "c"), registered_lately()), Ok(None));
    assert_eq!(feed(&mut detector, message("4", "bob", 1500, "d"), registered_lately()), Ok(None));
    assert!(!detector.is_author_spammer("bob"));
}

#[test]
fn repeated_message_scenario_reports_the_third_occurrence() {
    let mut detector = Detector::new(similarity_only());
    assert_eq!(feed(&mut detector, message("1", "cat", 0, "hello world!"), registered_lately()), Ok(None));
    assert_eq!(
        feed(&mut detector, message("2", "cat", 10_000, "hello \u{2764}world!"), registered_lately()),
        Ok(None)
    );
    assert_eq!(
        feed(&mut detector, message("3", "cat", 20_000, "\u{1F600}hello world!\u{1F600}"), registered_lately()),
        Ok(Some(report("3", "cat", Reason::Similar)))
    );
    assert!(detector.is_author_spammer("cat"));
}

#[test]
fn first_message_is_cleaned_before_it_is_kept() {
    let mut detector = Detector::new(DetectorParams::new(
        0,
        3,
        2,
        4,
        15,
        0,
        RegDate::new(2020, 10, 1),
    ));
    assert_eq!(
        feed(&mut detector, message("1", "cat", 0, "t\u{2764}e\u{2764}s\u{2764}t"), registered_lately()),
        Ok(None)
    );
    assert_eq!(
        feed(&mut detector, message("2", "cat", 10_000, "test"), registered_lately()),
        Ok(Some(report("2", "cat", Reason::Similar)))
    );
}

#[test]
fn support_scenario_forgives_and_protects() {
    let mut detector = Detector::new(similarity_only());
    assert_eq!(feed(&mut detector, message("1", "dee", 0, "hello world!"), registered_lately()), Ok(None));
    assert_eq!(feed(&mut detector, message("2", "dee", 1000, "hello world!"), registered_lately()), Ok(None));
    assert_eq!(
        feed(&mut detector, message("3", "dee", 2000, "hello world!"), registered_lately()),
        Ok(Some(report("3", "dee", Reason::Similar)))
    );
    assert!(detector.is_author_spammer("dee"));
    assert_eq!(feed(&mut detector, support("dee", 3000), registered_lately()), Ok(None));
    assert!(!detector.is_author_spammer("dee"));
    for (i, id) in ["4", "5", "6", "7", "8"].iter().enumerate() {
        let action = message(id, "dee", 4000 + 1000 * i as u64, "hello world!");
        assert_eq!(detector.process_message(action), Step::Done(None));
    }
    assert!(!detector.is_author_spammer("dee"));
    assert_eq!(detector.get_spammers().len(), 0);
}

#[test]
fn unknown_account_scenario_takes_the_default_and_keeps_it() {
    let mut detector = Detector::new(similarity_only());
    detector.set_slow_mode(100);
    assert_eq!(feed(&mut detector, message("1", "yara", 0, "one"), Ok(None)), Ok(None));
    let step = detector.process_message(message("2", "yara", 1000, "two"));
    let suspect = match step {
        Step::Lookup(suspect) => suspect,
        Step::Done(result) => panic!("no lookup was asked for: {:?}", result),
    };
    assert_eq!(suspect.author(), "yara");
    assert_eq!(
        detector.resume(suspect, Ok(None)),
        Ok(Some(report("2", "yara", Reason::SlowMode)))
    );
    assert!(detector.is_author_spammer("yara"));
    detector.update_params(DetectorParams::new(0, 3, 3, 10, 15, 0, RegDate::new(2022, 1, 1)));
    assert!(!detector.is_author_spammer("yara"));
    assert_eq!(
        detector.process_message(message("3", "yara", 2000, "three")),
        Step::Done(None)
    );
    assert!(!detector.is_author_spammer("yara"));
}

#[test]
fn settled_date_is_not_asked_for_again() {
    let mut detector = Detector::new(similarity_only());
    detector.set_slow_mode(100);
    assert_eq!(feed(&mut detector, message("1", "eve", 0, "one"), registered_lately()), Ok(None));
    assert_eq!(
        detector.process_message(message("2", "eve", 1000, "two")),
        Step::Lookup(Suspect::Message {
            id: "2".to_string(),
            author: "eve".to_string(),
            context_params: "menu-2".to_string(),
            reason: Reason::SlowMode,
        })
    );
    let suspect = Suspect::Message {
        id: "2".to_string(),
        author: "eve".to_string(),
        context_params: "menu-2".to_string(),
        reason: Reason::SlowMode,
    };
    assert_eq!(detector.resume(suspect, registered_lately()), Ok(Some(report("2", "eve", Reason::SlowMode))));
    detector.update_params(similarity_only());
    assert_eq!(
        detector.process_message(message("3", "eve", 2000, "three")),
        Step::Done(Some(report("3", "eve", Reason::SlowMode)))
    );
}

#[test]
fn old_account_passes_and_stays_under_watch() {
    let mut detector = Detector::new(similarity_only());
    detector.set_slow_mode(100);
    assert_eq!(feed(&mut detector, message("1", "fay", 0, "one"), settled_long_ago()), Ok(None));
    assert_eq!(feed(&mut detector, message("2", "fay", 1000, "two"), settled_long_ago()), Ok(None));
    assert!(!detector.is_author_spammer("fay"));
    assert_eq!(
        detector.process_message(message("3", "fay", 2000, "three")),
        Step::Done(None)
    );
    assert!(!detector.is_author_spammer("fay"));
}

#[test]
fn failed_lookup_is_handed_on_and_asked_again() {
    let mut detector = Detector::new(similarity_only());
    detector.set_slow_mode(100);
    assert_eq!(feed(&mut detector, message("1", "gus", 0, "one"), registered_lately()), Ok(None));
    assert_eq!(
        feed(&mut detector, message("2", "gus", 1000, "two"), Err("no answer".to_string())),
        Err("no answer".to_string())
    );
    assert!(!detector.is_author_spammer("gus"));
    assert_eq!(
        feed(&mut detector, message("3", "gus", 2000, "three"), registered_lately()),
        Ok(Some(report("3", "gus", Reason::SlowMode)))
    );
    assert!(detector.is_author_spammer("gus"));
}

#[test]
fn badge_lets_a_message_pass_unseen() {
    let mut detector = Detector::new(similarity_only());
    detector.set_slow_mode(100);
    let badged = ChatAction::Message {
        id: "1".to_string(),
        author: "hal".to_string(),
        timestamp: 0,
        content: "hello world!".to_string(),
        badges: Some(vec![Badges::MODERATOR]),
        context_params: "menu-1".to_string(),
    };
    assert_eq!(detector.process_message(badged), Step::Done(None));
    assert_eq!(
        detector.process_message(message("2", "hal", 1000, "hello world!")),
        Step::Done(None)
    );
    let empty_badges = ChatAction::Message {
        id: "3".to_string(),
        author: "hal".to_string(),
        timestamp: 2000,
        content: "hello world!".to_string(),
        badges: Some(vec![]),
        context_params: "menu-3".to_string(),
    };
    assert_eq!(detector.process_message(empty_badges), Step::Done(None));
    assert_eq!(
        feed(&mut detector, message("4", "hal", 3000, "hello world!"), registered_lately()),
        Ok(Some(report("4", "hal", Reason::SlowMode)))
    );
}

#[test]
fn flagged_author_is_reported_without_a_badge_only() {
    let mut detector = Detector::new(similarity_only());
    detector.set_slow_mode(100);
    assert_eq!(feed(&mut detector, message("1", "ida", 0, "one"), registered_lately()), Ok(None));
    assert_eq!(
        feed(&mut detector, message("2", "ida", 1000, "two"), registered_lately()),
        Ok(Some(report("2", "ida", Reason::SlowMode)))
    );
    let badged = ChatAction::Message {
        id: "3".to_string(),
        author: "ida".to_string(),
        timestamp: 2000,
        content: "three".to_string(),
        badges: Some(vec![Badges::MEMBER, Badges::VERIFIED]),
        context_params: "menu-3".to_string(),
    };
    assert_eq!(detector.process_message(badged), Step::Done(None));
    detector.set_slow_mode(0);
    assert_eq!(
        detector.process_message(message("4", "ida", 900_000, "four")),
        Step::Done(Some(report("4", "ida", Reason::SlowMode)))
    );
}

#[test]
fn retraction_flags_a_new_account_without_a_result() {
    let mut detector = Detector::new(similarity_only());
    assert_eq!(feed(&mut detector, retracted("jon", 0), registered_lately()), Ok(None));
    assert!(detector.is_author_spammer("jon"));
    assert_eq!(detector.get_spammers().get("jon"), Some(&Reason::RetractedMessage));
    assert_eq!(detector.process_message(retracted("jon", 1000)), Step::Done(None));
    assert_eq!(
        detector.process_message(message("1", "jon", 2000, "hi")),
        Step::Done(Some(report("1", "jon", Reason::RetractedMessage)))
    );
}

#[test]
fn retraction_on_an_old_account_changes_nothing() {
    let mut detector = Detector::new(similarity_only());
    assert_eq!(
        detector.process_message(retracted("kim", 0)),
        Step::Lookup(Suspect::Retraction { author: "kim".to_string() })
    );
    assert_eq!(
        detector.resume(Suspect::Retraction { author: "kim".to_string() }, settled_long_ago()),
        Ok(None)
    );
    assert!(!detector.is_author_spammer("kim"));
    assert_eq!(detector.process_message(retracted("kim", 1000)), Step::Done(None));
    assert!(!detector.is_author_spammer("kim"));
}

#[test]
fn retraction_by_a_supporter_on_a_new_account_still_flags() {
    let mut detector = Detector::new(similarity_only());
    assert_eq!(feed(&mut detector, support("lee", 0), registered_lately()), Ok(None));
    assert_eq!(feed(&mut detector, retracted("lee", 1000), registered_lately()), Ok(None));
    assert!(detector.is_author_spammer("lee"));
    assert_eq!(detector.process_message(message("1", "lee", 2000, "hi")), Step::Done(None));
}

#[test]
fn supporter_is_never_flagged_by_messages() {
    let mut detector = Detector::new(DetectorParams::new(
        2000,
        2,
        2,
        1,
        1,
        1,
        RegDate::new(2000, 1, 1),
    ));
    detector.set_slow_mode(1000);
    assert_eq!(feed(&mut detector, support("mia", 0), registered_lately()), Ok(None));
    for (i, id) in ["1", "2", "3", "4", "5", "6"].iter().enumerate() {
        let action = message(id, "mia", 1000 * i as u64, "the same long message again");
        assert_eq!(detector.process_message(action), Step::Done(None));
        assert!(!detector.is_author_spammer("mia"));
    }
    assert_eq!(detector.get_spammers().len(), 0);
}

#[test]
fn new_params_clear_flags_and_keep_supporters() {
    let mut detector = Detector::new(similarity_only());
    detector.set_slow_mode(100);
    assert_eq!(feed(&mut detector, support("ned", 0), registered_lately()), Ok(None));
    assert_eq!(feed(&mut detector, message("1", "oli", 0, "one"), registered_lately()), Ok(None));
    assert_eq!(
        feed(&mut detector, message("2", "oli", 1000, "two"), registered_lately()),
        Ok(Some(report("2", "oli", Reason::SlowMode)))
    );
    assert_eq!(feed(&mut detector, retracted("pam", 2000), registered_lately()), Ok(None));
    assert_eq!(detector.get_spammers().len(), 2);
    detector.update_params(similarity_only());
    assert_eq!(detector.get_spammers().len(), 0);
    assert!(!detector.is_author_spammer("oli"));
    assert!(!detector.is_author_spammer("pam"));
    assert_eq!(detector.process_message(message("3", "ned", 3000, "free")), Step::Done(None));
    assert_eq!(
        detector.process_message(message("4", "oli", 3000, "four")),
        Step::Done(Some(report("4", "oli", Reason::SlowMode)))
    );
}

#[test]
fn new_params_change_the_default_for_later_lookups_only() {
    let mut detector = Detector::new(similarity_only());
    assert_eq!(feed(&mut detector, retracted("quin", 0), Ok(None)), Ok(None));
    assert!(detector.is_author_spammer("quin"));
    detector.update_params(DetectorParams::new(0, 3, 3, 10, 15, 0, RegDate::new(2021, 1, 1)));
    assert_eq!(detector.process_message(retracted("quin", 1000)), Step::Done(None));
    assert!(!detector.is_author_spammer("quin"));
    assert_eq!(feed(&mut detector, retracted("ron", 2000), Ok(None)), Ok(None));
    assert!(detector.is_author_spammer("ron"));
}

#[test]
fn authors_are_told_apart() {
    let mut detector = Detector::new(similarity_only());
    assert_eq!(feed(&mut detector, message("1", "sam", 0, "hello world!"), registered_lately()), Ok(None));
    assert_eq!(feed(&mut detector, message("2", "tom", 0, "hello world!"), registered_lately()), Ok(None));
    assert_eq!(feed(&mut detector, message("3", "sam", 1000, "hello world!"), registered_lately()), Ok(None));
    assert_eq!(feed(&mut detector, message("4", "tom", 1000, "hello world!"), registered_lately()), Ok(None));
    assert_eq!(
        feed(&mut detector, message("5", "tom", 2000, "hello world!"), registered_lately()),
        Ok(Some(report("5", "tom", Reason::Similar)))
    );
    assert!(!detector.is_author_spammer("sam"));
    assert!(detector.is_author_spammer("tom"));
    assert_eq!(detector.get_spammers().len(), 1);
    assert_eq!(detector.get_spammers().get("tom"), Some(&Reason::Similar));
    assert_eq!(detector.get_spammers().get("sam"), None);
}

#[test]
fn detector_refuses_a_message_from_the_past() {
    let mut detector = Detector::new(similarity_only());
    assert_eq!(feed(&mut detector, message("1", "uma", 10_000, "one"), registered_lately()), Ok(None));
    assert!(!detector.accepts(&message("2", "uma", 9_999, "two")));
    assert!(detector.accepts(&message("2", "uma", 10_000, "two")));
    assert!(detector.accepts(&message("2", "vic", 0, "two")));
    assert!(detector.accepts(&support("uma", 0)));
    assert!(detector.accepts(&retracted("uma", 0)));
}

#[test]
fn sorting_orders_by_time_and_keeps_ties_in_place() {
    let sorted = sort_by_timestamp(vec![
        message("a", "x", 30, "late"),
        message("b", "x", 10, "early"),
        support("y", 20),
        message("c", "z", 10, "also early"),
        retracted("w", 20),
        message("d", "x", 0, "first"),
        message("e", "x", 10, "early again"),
    ]);
    let ids: Vec<String> = sorted
        .iter()
        .map(|action| match action {
            ChatAction::Message { id, .. } => id.clone(),
            ChatAction::Support { author, .. } => format!("support-{}", author),
            ChatAction::RetractedMessage { author, .. } => format!("retracted-{}", author),
        })
        .collect();
    assert_eq!(ids, vec!["d", "b", "c", "e", "support-y", "retracted-w", "a"]);
    let times: Vec<u64> = sorted.iter().map(|action| action.timestamp()).collect();
    assert_eq!(times, vec![0, 10, 10, 10, 20, 20, 30]);
}

#[test]
fn sorting_leaves_a_sorted_or_empty_batch_as_it_is() {
    assert_eq!(sort_by_timestamp(Vec::new()).len(), 0);
    let sorted = sort_by_timestamp(vec![support("a", 1), support("b", 1), support("c", 2)]);
    let authors: Vec<String> = sorted
        .iter()
        .map(|action| match action {
            ChatAction::Support { author, .. } => author.clone(),
            _ => String::new(),
        })
        .collect();
    assert_eq!(authors, vec!["a", "b", "c"]);
}
