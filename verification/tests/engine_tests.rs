use tg_anti_spam::classifier::{ClassifyOutcome, LlmSpamResult};
use tg_anti_spam::config::Config;
use tg_anti_spam::engine::{decide, screen_message, ScreenDecision};
use tg_anti_spam::state::{is_user_whitelisted, AppState};
use tg_anti_spam::telegram::{Chat, Message, User};
use tg_anti_spam::whitelist::AllowlistStore;

fn msg(user_id: i64, text: &str) -> Message {
    Message {
        message_id: 10,
        from: Some(User { id: user_id, is_bot: false, username: None }),
        chat: Chat { id: -500, kind: String::from("group") },
        text: Some(String::from(text)),
    }
}

fn config(spam_threshold: u8, ham_threshold: u32) -> Config {
    Config {
        bot_token: String::new(),
        whitelist_path: String::new(),
        spam_threshold,
        ham_threshold,
        tag_username: None,
        echo_ham: false,
        ollama_model: String::new(),
        notify_user_id: None,
    }
}

fn fresh_state() -> AppState {
    AppState::new(AllowlistStore::load(""))
}

fn scored(score: u8, notes: &str) -> ClassifyOutcome {
    ClassifyOutcome::Scored(LlmSpamResult { spam_score: score, notes: String::from(notes) })
}

#[test]
fn allowlisted_sender_is_never_classified() {
    let state = AppState::new(AllowlistStore::load("5\n"));
    let d = screen_message(&msg(5, "buy my stuff"), &state);
    assert!(matches!(d, ScreenDecision::SkipAllowlisted));
}

#[test]
fn unknown_sender_is_classified() {
    let state = fresh_state();
    let d = screen_message(&msg(5, " hello there "), &state);
    match d {
        ScreenDecision::Classify { user_id, text } => {
            assert_eq!(user_id, 5);
            assert_eq!(text, "hello there");
        }
        _ => panic!("expected a classification request"),
    }
}

#[test]
fn missing_text_is_skipped() {
    let state = fresh_state();
    let mut m = msg(5, "x");
    m.text = None;
    assert!(matches!(screen_message(&m, &state), ScreenDecision::SkipNoText));
}

#[test]
fn whitespace_only_text_is_skipped() {
    let state = fresh_state();
    assert!(matches!(screen_message(&msg(5, "   \t\r\n "), &state), ScreenDecision::SkipNoText));
    assert!(matches!(screen_message(&msg(5, ""), &state), ScreenDecision::SkipNoText));
}

#[test]
fn missing_sender_is_skipped() {
    let state = fresh_state();
    let mut m = msg(5, "hello");
    m.from = None;
    assert!(matches!(screen_message(&m, &state), ScreenDecision::SkipNoSender));
}

#[test]
fn bot_sender_is_skipped() {
    let state = fresh_state();
    let mut m = msg(5, "hello");
    if let Some(u) = m.from.as_mut() {
        u.is_bot = true;
    }
    assert!(matches!(screen_message(&m, &state), ScreenDecision::SkipBot));
}

#[test]
fn long_text_is_capped_at_250_chars() {
    let state = fresh_state();
    let long = "a".repeat(300);
    match screen_message(&msg(5, &long), &state) {
        ScreenDecision::Classify { text, .. } => assert_eq!(text.chars().count(), 250),
        _ => panic!("expected a classification request"),
    }
}

#[test]
fn spam_score_at_threshold_warns_without_mutation() {
    let cfg = config(70, 3);
    let mut state = fresh_state();
    let m = msg(5, "spammy");
    let out = decide(&m, 5, &scored(85, "ads"), &mut state, &cfg);
    assert_eq!(out.notices.len(), 1);
    assert!(out.notices[0].text.contains("85"));
    assert!(out.notices[0].text.contains("ads"));
    assert_eq!(out.notices[0].chat_id, -500);
    assert_eq!(out.notices[0].reply_to, Some(10));
    assert!(out.whitelist_append.is_none());
    assert!(!is_user_whitelisted(5, &state));
    // the spam decision left the counter untouched: promotion still
    // takes three ham messages
    assert!(decide(&m, 5, &scored(0, ""), &mut state, &cfg).notices.is_empty());
    assert!(decide(&m, 5, &scored(0, ""), &mut state, &cfg).notices.is_empty());
    assert!(!is_user_whitelisted(5, &state));
    let third = decide(&m, 5, &scored(0, ""), &mut state, &cfg);
    assert_eq!(third.notices.len(), 1);
    assert!(is_user_whitelisted(5, &state));
}

#[test]
fn score_exactly_at_threshold_counts_as_spam() {
    let cfg = config(70, 3);
    let mut state = fresh_state();
    let out = decide(&msg(5, "x"), 5, &scored(70, "edge"), &mut state, &cfg);
    assert_eq!(out.notices.len(), 1);
    assert!(out.notices[0].text.contains("70"));
}

#[test]
fn warning_carries_the_configured_mention() {
    let mut cfg = config(70, 3);
    cfg.tag_username = Some(String::from("admin"));
    let mut state = fresh_state();
    let out = decide(&msg(5, "x"), 5, &scored(99, "r"), &mut state, &cfg);
    assert!(out.notices[0].text.starts_with("@admin "));
}

#[test]
fn three_ham_messages_promote_exactly_once() {
    let cfg = config(70, 3);
    let mut state = fresh_state();
    let m = msg(5, "good message");
    let first = decide(&m, 5, &scored(0, ""), &mut state, &cfg);
    assert!(first.notices.is_empty());
    assert!(first.whitelist_append.is_none());
    let second = decide(&m, 5, &scored(0, ""), &mut state, &cfg);
    assert!(second.notices.is_empty());
    assert!(!is_user_whitelisted(5, &state));
    let third = decide(&m, 5, &scored(0, ""), &mut state, &cfg);
    assert!(is_user_whitelisted(5, &state));
    assert_eq!(third.notices.len(), 1);
    assert!(third.notices[0].text.contains("id 5"));
    assert!(third.notices[0].text.contains("3"));
    assert_eq!(third.notices[0].reply_to, None);
    assert_eq!(third.whitelist_append.as_deref(), Some("5\n"));
    // a fourth ham message does not re-trigger the promotion
    let fourth = decide(&m, 5, &scored(0, ""), &mut state, &cfg);
    assert!(fourth.notices.is_empty());
    assert!(fourth.whitelist_append.is_none());
}

#[test]
fn promotion_names_the_handle_when_known() {
    let cfg = config(70, 1);
    let mut state = fresh_state();
    let mut m = msg(5, "hi");
    if let Some(u) = m.from.as_mut() {
        u.username = Some(String::from("bob"));
    }
    let out = decide(&m, 5, &scored(0, ""), &mut state, &cfg);
    assert_eq!(out.notices.len(), 1);
    assert!(out.notices[0].text.contains("@bob"));
}

#[test]
fn promotion_goes_to_the_configured_target() {
    let mut cfg = config(70, 1);
    cfg.notify_user_id = Some(777);
    let mut state = fresh_state();
    let out = decide(&msg(5, "hi"), 5, &scored(0, ""), &mut state, &cfg);
    assert_eq!(out.notices.len(), 1);
    assert_eq!(out.notices[0].chat_id, 777);
}

#[test]
fn promotion_replies_to_origin_chat_by_default() {
    let cfg = config(70, 1);
    let mut state = fresh_state();
    let out = decide(&msg(5, "hi"), 5, &scored(0, ""), &mut state, &cfg);
    assert_eq!(out.notices[0].chat_id, -500);
}

#[test]
fn echo_notice_shows_the_running_count() {
    let mut cfg = config(70, 10);
    cfg.echo_ham = true;
    let mut state = fresh_state();
    let m = msg(5, "hi");
    let first = decide(&m, 5, &scored(0, ""), &mut state, &cfg);
    assert_eq!(first.notices.len(), 1);
    assert!(first.notices[0].text.contains("1"));
    let second = decide(&m, 5, &scored(0, ""), &mut state, &cfg);
    assert!(second.notices[0].text.contains("2"));
}

#[test]
fn threshold_reached_by_allowlisted_user_stays_quiet() {
    // a concurrent race can let a message pass screening before the
    // sender's promotion lands; the duplicate insertion must produce
    // no second append and no second announcement
    let cfg = config(70, 1);
    let mut state = AppState::new(AllowlistStore::load("5\n"));
    let out = decide(&msg(5, "hi"), 5, &scored(0, ""), &mut state, &cfg);
    assert!(out.notices.is_empty());
    assert!(out.whitelist_append.is_none());
    assert!(is_user_whitelisted(5, &state));
}

#[test]
fn unavailable_classification_passes_through() {
    let cfg = config(70, 1);
    let mut state = fresh_state();
    let m = msg(5, "anything");
    let out = decide(&m, 5, &ClassifyOutcome::Unavailable, &mut state, &cfg);
    assert!(out.notices.is_empty());
    assert!(out.whitelist_append.is_none());
    assert!(!is_user_whitelisted(5, &state));
    // the counter was not touched either: one real ham message still
    // has to start from one
    let after = decide(&m, 5, &scored(0, ""), &mut state, &cfg);
    assert!(is_user_whitelisted(5, &state));
    assert_eq!(after.notices.len(), 1);
}
