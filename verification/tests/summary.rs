use echo_rust_agent_proxy::chat::{Message, Role};
use echo_rust_agent_proxy::summary::{
    apply_summary, needs_summary, summarizer_request, summary_request,
};

fn convo(n: usize) -> Vec<Message> {
    (0..n).map(|i| Message::new(Role::User, format!("m{}", i))).collect()
}

#[test]
fn summary_keeps_last_four_turns() {
    let mut messages = convo(7);
    apply_summary(&mut messages, "they talked");
    assert_eq!(messages.len(), 5);
    assert_eq!(messages[0].role, Role::System);
    assert_eq!(messages[0].content, "Previous conversation summary:\nthey talked");
    let rest: Vec<&str> = messages[1..].iter().map(|m| m.content.as_str()).collect();
    assert_eq!(rest, vec!["m3", "m4", "m5", "m6"]);
}

#[test]
fn short_conversation_is_kept_whole() {
    let mut messages = convo(2);
    apply_summary(&mut messages, "s");
    assert_eq!(messages.len(), 3);
    assert_eq!(messages[1].content, "m0");
    assert_eq!(messages[2].content, "m1");
}

#[test]
fn empty_summary_changes_nothing() {
    let mut messages = convo(6);
    apply_summary(&mut messages, "");
    assert_eq!(messages.len(), 6);
    assert_eq!(messages[0].content, "m0");
}

#[test]
fn threshold_counts_bytes() {
    let messages = vec![
        Message::new(Role::User, "abc".to_string()),
        Message::new(Role::Assistant, "é".to_string()),
    ];
    assert!(!needs_summary(&messages, 5));
    assert!(needs_summary(&messages, 4));
    assert!(!needs_summary(&vec![], 0));
}

#[test]
fn summary_request_prepends_instruction() {
    let r = summary_request(&convo(2));
    assert_eq!(r.len(), 3);
    assert_eq!(r[0].role, Role::System);
    assert!(r[0].content.starts_with("Summarize the entire conversation so far"));
    assert_eq!(r[2].content, "m1");
    let s = summarizer_request("prompt", "raw");
    assert_eq!((s[0].role, s[0].content.as_str()), (Role::System, "prompt"));
    assert_eq!((s[1].role, s[1].content.as_str()), (Role::User, "raw"));
}
