use chat_bridge::avoid_kick::SendChatEvent;
use chat_bridge::legal::message_legal_to_minecraft;

#[test]
fn empty_message_is_legal() {
    assert!(message_legal_to_minecraft(""));
}

#[test]
fn plain_text_is_legal() {
    assert!(message_legal_to_minecraft("hello world"));
    assert!(message_legal_to_minecraft("gr\u{fc}\u{df}e, \u{4e16}\u{754c}"));
}

#[test]
fn length_is_counted_in_bytes() {
    assert!(message_legal_to_minecraft(&"a".repeat(256)));
    assert!(!message_legal_to_minecraft(&"a".repeat(257)));
    // 128 two-byte characters fit, 129 do not
    assert!(message_legal_to_minecraft(&"\u{e9}".repeat(128)));
    assert!(!message_legal_to_minecraft(&"\u{e9}".repeat(129)));
}

#[test]
fn control_characters_are_illegal() {
    assert!(!message_legal_to_minecraft("a\u{0}b"));
    assert!(!message_legal_to_minecraft("line\nbreak"));
    assert!(!message_legal_to_minecraft("tab\there"));
    assert!(!message_legal_to_minecraft("\u{1f}"));
    assert!(message_legal_to_minecraft("\u{20}"));
    assert!(!message_legal_to_minecraft("del\u{7f}"));
    assert!(message_legal_to_minecraft("\u{7e}"));
    assert!(message_legal_to_minecraft("\u{80}"));
}

#[test]
fn section_sign_is_illegal() {
    assert!(!message_legal_to_minecraft("\u{a7}cred"));
    assert!(message_legal_to_minecraft("\u{a6}\u{a8}"));
}

#[test]
fn send_chat_event_holds_only_legal_content() {
    let event = SendChatEvent::new(7, "hi there").expect("legal");
    assert_eq!(event.entity(), 7);
    assert_eq!(event.content().as_str(), "hi there");
    assert!(SendChatEvent::new(7, "bad\u{a7}").is_none());
    assert!(SendChatEvent::new(7, &"x".repeat(300)).is_none());
}
