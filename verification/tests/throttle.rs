use chat_bridge::avoid_kick::{AvoidKickPlugin, SendChatEvent};
use chat_bridge::throttle::{AvoidChatKick, PendingOutboundLine};

fn line(text: &str, at: u64) -> PendingOutboundLine {
    PendingOutboundLine { content: text.to_string(), enqueued_at: at }
}

fn contents(lines: &[PendingOutboundLine]) -> Vec<String> {
    lines.iter().map(|l| l.content.clone()).collect()
}

#[test]
fn new_throttle_is_empty() {
    let state = AvoidChatKick::new();
    assert_eq!(state.chat_spam_tick_count(), 0);
    assert!(state.queued_messages().is_empty());
}

#[test]
fn seven_lines_drain_five_then_none() {
    let mut state = AvoidChatKick::new();
    for i in 0..7 {
        state.enqueue(line(&format!("line {i}"), i));
    }
    let first = state.tick();
    assert_eq!(contents(&first), vec!["line 0", "line 1", "line 2", "line 3", "line 4"]);
    assert_eq!(state.chat_spam_tick_count(), 100);
    assert_eq!(state.queued_messages().len(), 2);
    let second = state.tick();
    assert!(second.is_empty());
    assert_eq!(state.chat_spam_tick_count(), 99);
    assert_eq!(state.queued_messages().len(), 2);
}

#[test]
fn credit_decays_to_zero_on_empty_queue() {
    let mut state = AvoidChatKick::new();
    state.enqueue(line("a", 0));
    assert_eq!(state.tick().len(), 1);
    assert_eq!(state.chat_spam_tick_count(), 20);
    for expected in (0..20).rev() {
        assert!(state.tick().is_empty());
        assert_eq!(state.chat_spam_tick_count(), expected);
    }
    assert!(state.tick().is_empty());
    assert_eq!(state.chat_spam_tick_count(), 0);
}

#[test]
fn sustained_rate_is_one_line_per_twenty_ticks() {
    let mut state = AvoidChatKick::new();
    for i in 0..8 {
        state.enqueue(line(&format!("{i}"), 0));
    }
    assert_eq!(state.tick().len(), 5);
    let mut sent = Vec::new();
    for tick in 1..=60 {
        let drained = state.tick();
        assert!(state.chat_spam_tick_count() <= 100);
        for l in drained {
            sent.push((tick, l.content));
        }
    }
    assert_eq!(
        sent,
        vec![(20, "5".to_string()), (40, "6".to_string()), (60, "7".to_string())]
    );
    assert!(state.queued_messages().is_empty());
}

#[test]
fn every_line_is_sent_once_and_in_order() {
    let mut state = AvoidChatKick::new();
    let mut sent = Vec::new();
    let mut enqueued = Vec::new();
    for round in 0..30u64 {
        for k in 0..(round % 4) {
            let text = format!("{round}-{k}");
            enqueued.push(text.clone());
            state.enqueue(line(&text, round));
        }
        sent.extend(contents(&state.tick()));
    }
    let waiting = state.queued_messages().len();
    for _ in 0..(20 * waiting) {
        sent.extend(contents(&state.tick()));
    }
    assert!(state.queued_messages().is_empty());
    assert_eq!(sent, enqueued);
}

#[test]
fn enqueue_keeps_timestamp() {
    let mut state = AvoidChatKick::new();
    state.enqueue(line("x", 42));
    assert_eq!(state.queued_messages()[0].enqueued_at, 42);
}

#[test]
fn registry_creates_session_on_first_request() {
    let mut plugin = AvoidKickPlugin::new();
    assert!(!plugin.has_session(3));
    assert!(plugin.get(3).is_none());
    plugin.send_chat_listener(SendChatEvent::new(3, "hello").unwrap(), 5);
    assert!(plugin.has_session(3));
    let state = plugin.get(3).unwrap();
    assert_eq!(state.chat_spam_tick_count(), 0);
    assert_eq!(state.queued_messages().len(), 1);
    assert_eq!(state.queued_messages()[0].content, "hello");
    assert_eq!(state.queued_messages()[0].enqueued_at, 5);
}

#[test]
fn registry_drains_every_session_in_order() {
    let mut plugin = AvoidKickPlugin::new();
    for i in 0..6 {
        plugin.send_chat_listener(SendChatEvent::new(1, &format!("a{i}")).unwrap(), 0);
    }
    plugin.send_chat_listener(SendChatEvent::new(2, "b0").unwrap(), 0);
    plugin.send_chat_listener(SendChatEvent::new(1, "a6").unwrap(), 0);
    let sent = plugin.drain_chat_message_queue();
    let got: Vec<(u64, String)> = sent.iter().map(|e| (e.entity(), e.content().clone())).collect();
    let want: Vec<(u64, String)> = vec![
        (1, "a0".into()),
        (1, "a1".into()),
        (1, "a2".into()),
        (1, "a3".into()),
        (1, "a4".into()),
        (2, "b0".into()),
    ];
    assert_eq!(got, want);
    assert_eq!(plugin.get(1).unwrap().chat_spam_tick_count(), 100);
    assert_eq!(plugin.get(1).unwrap().queued_messages().len(), 2);
    assert_eq!(plugin.get(2).unwrap().chat_spam_tick_count(), 20);
    assert!(plugin.drain_chat_message_queue().is_empty());
}

#[test]
fn registry_ticks_one_identity() {
    let mut plugin = AvoidKickPlugin::new();
    plugin.send_chat_listener(SendChatEvent::new(1, "a").unwrap(), 0);
    plugin.send_chat_listener(SendChatEvent::new(2, "b").unwrap(), 0);
    assert!(plugin.tick(9).is_empty());
    let sent = plugin.tick(2);
    assert_eq!(sent.len(), 1);
    assert_eq!(sent[0].entity(), 2);
    assert_eq!(sent[0].content().as_str(), "b");
    assert_eq!(plugin.get(1).unwrap().queued_messages().len(), 1);
    assert_eq!(plugin.get(1).unwrap().chat_spam_tick_count(), 0);
}

#[test]
fn registry_forgets_a_session() {
    let mut plugin = AvoidKickPlugin::new();
    plugin.send_chat_listener(SendChatEvent::new(1, "a").unwrap(), 0);
    plugin.send_chat_listener(SendChatEvent::new(2, "b").unwrap(), 0);
    let gone = plugin.remove(1).unwrap();
    assert_eq!(gone.queued_messages().len(), 1);
    assert!(!plugin.has_session(1));
    assert!(plugin.has_session(2));
    assert!(plugin.remove(1).is_none());
    let sent = plugin.drain_chat_message_queue();
    assert_eq!(sent.len(), 1);
    assert_eq!(sent[0].entity(), 2);
}
