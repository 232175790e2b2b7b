use tg_anti_spam::config::{ham_threshold_of, notify_user_id_of, spam_threshold_of, tag_username_of};

#[test]
fn spam_threshold_defaults_to_seventy() {
    assert_eq!(spam_threshold_of(None), 70);
    assert_eq!(spam_threshold_of(Some("abc")), 70);
    assert_eq!(spam_threshold_of(Some("")), 70);
    assert_eq!(spam_threshold_of(Some("300")), 70);
    assert_eq!(spam_threshold_of(Some("-1")), 70);
}

#[test]
fn spam_threshold_parses_in_range() {
    assert_eq!(spam_threshold_of(Some("90")), 90);
    assert_eq!(spam_threshold_of(Some("0")), 0);
    assert_eq!(spam_threshold_of(Some("255")), 255);
}

#[test]
fn ham_threshold_defaults_to_fifteen() {
    assert_eq!(ham_threshold_of(None), 15);
    assert_eq!(ham_threshold_of(Some("x")), 15);
    assert_eq!(ham_threshold_of(Some("-3")), 15);
    assert_eq!(ham_threshold_of(Some("4294967296")), 15);
}

#[test]
fn ham_threshold_parses_in_range() {
    assert_eq!(ham_threshold_of(Some("3")), 3);
    assert_eq!(ham_threshold_of(Some("4294967295")), u32::MAX);
}

#[test]
fn notify_id_is_trimmed_then_parsed() {
    assert_eq!(notify_user_id_of(None), None);
    assert_eq!(notify_user_id_of(Some(" 99 ")), Some(99));
    assert_eq!(notify_user_id_of(Some("-42")), Some(-42));
    assert_eq!(notify_user_id_of(Some("nope")), None);
    assert_eq!(notify_user_id_of(Some("")), None);
}

#[test]
fn tag_username_strips_leading_at_signs() {
    assert_eq!(tag_username_of(Some("@bob")).as_deref(), Some("bob"));
    assert_eq!(tag_username_of(Some("@@bob")).as_deref(), Some("bob"));
    assert_eq!(tag_username_of(Some("bob")).as_deref(), Some("bob"));
}

#[test]
fn tag_username_drops_blank_values() {
    assert_eq!(tag_username_of(None), None);
    assert_eq!(tag_username_of(Some("")), None);
    assert_eq!(tag_username_of(Some("   ")), None);
}

#[test]
fn tag_username_of_only_at_signs_is_kept_empty() {
    // at-signs survive the blank check, then are all stripped
    assert_eq!(tag_username_of(Some("@")).as_deref(), Some(""));
}

#[test]
fn tag_username_keeps_inner_whitespace_raw() {
    // leading whitespace blocks the at-sign stripping but not the keep
    assert_eq!(tag_username_of(Some(" @bob ")).as_deref(), Some(" @bob "));
}
