use tg_anti_spam::classifier::{interpret_reply_body, parse_llm_reply};

#[test]
fn over_range_score_clamps_to_hundred() {
    let r = parse_llm_reply("{\"spam_score\":150,\"notes\":\"x\"}").unwrap();
    assert_eq!(r.spam_score, 100);
    assert_eq!(r.notes, "x");
}

#[test]
fn negative_score_clamps_to_zero() {
    let r = parse_llm_reply("{\"spam_score\":-5,\"notes\":\"y\"}").unwrap();
    assert_eq!(r.spam_score, 0);
}

#[test]
fn missing_fields_default() {
    let r = parse_llm_reply("{}").unwrap();
    assert_eq!(r.spam_score, 0);
    assert_eq!(r.notes, "");
}

#[test]
fn in_range_score_passes_through() {
    let r = parse_llm_reply("{\"spam_score\":85,\"notes\":\"ads\"}").unwrap();
    assert_eq!(r.spam_score, 85);
    assert_eq!(r.notes, "ads");
}

#[test]
fn boundary_scores_keep_their_value() {
    assert_eq!(parse_llm_reply("{\"spam_score\":0}").unwrap().spam_score, 0);
    assert_eq!(parse_llm_reply("{\"spam_score\":100}").unwrap().spam_score, 100);
    assert_eq!(parse_llm_reply("{\"spam_score\":101}").unwrap().spam_score, 100);
}

#[test]
fn non_json_content_is_unusable() {
    assert!(parse_llm_reply("not json at all").is_none());
    assert!(parse_llm_reply("").is_none());
}

#[test]
fn non_object_content_is_unusable() {
    assert!(parse_llm_reply("[1,2]").is_none());
    assert!(parse_llm_reply("150").is_none());
    assert!(parse_llm_reply("\"spam\"").is_none());
}

#[test]
fn whole_body_reaches_the_content() {
    let body = "{\"choices\":[{\"message\":{\"content\":\
                \"{\\\"spam_score\\\":85,\\\"notes\\\":\\\"ads\\\"}\"}}]}";
    let r = interpret_reply_body(body).unwrap();
    assert_eq!(r.spam_score, 85);
    assert_eq!(r.notes, "ads");
}

#[test]
fn body_content_is_trimmed() {
    let body = "{\"choices\":[{\"message\":{\"content\":\
                \"  {\\\"spam_score\\\":10}  \"}}]}";
    let r = interpret_reply_body(body).unwrap();
    assert_eq!(r.spam_score, 10);
}

#[test]
fn json_body_without_content_defaults() {
    let r = interpret_reply_body("{}").unwrap();
    assert_eq!(r.spam_score, 0);
    assert_eq!(r.notes, "");
}

#[test]
fn non_json_body_is_unavailable() {
    assert!(interpret_reply_body("garbage").is_none());
}

#[test]
fn malformed_inner_content_is_unavailable() {
    let body = "{\"choices\":[{\"message\":{\"content\":\"oops not json\"}}]}";
    assert!(interpret_reply_body(body).is_none());
}
