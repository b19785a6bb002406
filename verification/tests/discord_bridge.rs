use chat_bridge::bridge::{BridgeInfoEvent, BridgeInfoKind};
use chat_bridge::discord::{Author, MessageCreate};
use chat_bridge::discord_bridge::{
    escape_markdown, format_display_name, handle_bridge_info_events, DiscordBridge,
    DiscordBridgePlugin, DiscordContext,
};

fn bridge(channel_id: u64) -> DiscordBridge {
    DiscordBridgePlugin { channel_id }.build()
}

fn message(channel_id: u64, name: &str, discriminator: u16, bot: bool) -> MessageCreate {
    MessageCreate {
        id: 77,
        channel_id,
        author: Author { id: 5, name: name.to_string(), discriminator, bot },
        content: "hello".to_string(),
    }
}

#[test]
fn build_starts_empty() {
    let b = bridge(9);
    assert_eq!(b.channel_id(), 9);
    assert_eq!(b.queue_len(), 0);
    assert_eq!(b.discord_ratelimit(), 0);
}

#[test]
fn three_lines_of_400_pack_two() {
    let mut b = bridge(1);
    let lines = ["a".repeat(400), "b".repeat(400), "c".repeat(400)];
    for l in &lines {
        b.enqueue(l.clone());
    }
    let first = b.flush_to_discord_queue().unwrap();
    assert_eq!(first.channel_id, 1);
    assert_eq!(first.content, format!("{}\n{}", lines[0], lines[1]));
    assert_eq!(b.queue_len(), 1);
    assert_eq!(b.discord_ratelimit(), 40);
    let second = b.flush_to_discord_queue().unwrap();
    assert_eq!(second.content, lines[2]);
    assert_eq!(b.queue_len(), 0);
    assert_eq!(b.discord_ratelimit(), 59);
    assert!(b.flush_to_discord_queue().is_none());
    assert_eq!(b.discord_ratelimit(), 58);
}

#[test]
fn payload_limit_counts_line_feeds_and_bytes() {
    // 500 + 1 + 499 = 1000 fits
    let mut b = bridge(1);
    b.enqueue("a".repeat(500));
    b.enqueue("b".repeat(499));
    assert_eq!(b.flush_to_discord_queue().unwrap().content.len(), 1000);
    assert_eq!(b.queue_len(), 0);
    // 500 + 1 + 500 = 1001 does not
    let mut b = bridge(1);
    b.enqueue("a".repeat(500));
    b.enqueue("b".repeat(500));
    assert_eq!(b.flush_to_discord_queue().unwrap().content.len(), 500);
    assert_eq!(b.queue_len(), 1);
    // a single line of exactly 1000 bytes fits
    let mut b = bridge(1);
    b.enqueue("a".repeat(1000));
    assert_eq!(b.flush_to_discord_queue().unwrap().content.len(), 1000);
    // two-byte characters count double
    let mut b = bridge(1);
    b.enqueue("\u{e9}".repeat(300));
    b.enqueue("\u{e9}".repeat(200));
    assert_eq!(b.flush_to_discord_queue().unwrap().content.chars().count(), 300);
    assert_eq!(b.queue_len(), 1);
}

#[test]
fn a_line_over_the_limit_stays_at_the_front() {
    let mut b = bridge(1);
    b.enqueue("a".repeat(1001));
    b.enqueue("short".to_string());
    assert!(b.flush_to_discord_queue().is_none());
    assert_eq!(b.queue_len(), 2);
    assert_eq!(b.discord_ratelimit(), 0);
}

#[test]
fn rate_limit_holds_back_at_100() {
    let mut b = bridge(1);
    for i in 0..6 {
        b.enqueue(format!("l{i}"));
    }
    let m = b.flush_to_discord_queue().unwrap();
    assert_eq!(m.content, "l0\nl1\nl2\nl3\nl4\nl5");
    assert_eq!(b.discord_ratelimit(), 120);
    b.enqueue("later".to_string());
    for expected in (100..120).rev() {
        assert!(b.flush_to_discord_queue().is_none());
        assert_eq!(b.discord_ratelimit(), expected);
        assert_eq!(b.queue_len(), 1);
    }
    let m = b.flush_to_discord_queue().unwrap();
    assert_eq!(m.content, "later");
    assert_eq!(b.discord_ratelimit(), 119);
}

#[test]
fn empty_lines_are_joined_too() {
    let mut b = bridge(1);
    b.enqueue(String::new());
    b.enqueue(String::new());
    b.enqueue("x".to_string());
    assert_eq!(b.flush_to_discord_queue().unwrap().content, "\n\nx");
}

#[test]
fn markdown_is_escaped() {
    assert_eq!(escape_markdown("plain"), "plain");
    assert_eq!(escape_markdown("*bold* _it_"), "\\*bold\\* \\_it\\_");
    assert_eq!(escape_markdown("a\\*"), "a\\\\*");
    assert_eq!(escape_markdown(""), "");
    assert_eq!(escape_markdown("x_y*z"), "x_y*z".replace('*', "\\*").replace('_', "\\_"));
    let mut b = bridge(1);
    b.minecraft_to_discord_queue("<a_b> *hi*");
    assert_eq!(b.flush_to_discord_queue().unwrap().content, "<a\\_b> \\*hi\\*");
}

#[test]
fn display_name_pads_the_discriminator() {
    assert_eq!(format_display_name("mat", 0), "mat");
    assert_eq!(format_display_name("mat", 7), "mat#0007");
    assert_eq!(format_display_name("mat", 42), "mat#0042");
    assert_eq!(format_display_name("mat", 999), "mat#0999");
    assert_eq!(format_display_name("mat", 1234), "mat#1234");
    assert_eq!(format_display_name("mat", 65535), "mat#65535");
    for d in [1u16, 10, 100, 1000, 9999, 10000] {
        assert_eq!(format_display_name("n", d), format!("{}#{:0>4}", "n", d));
    }
}

#[test]
fn discord_messages_are_filtered_by_channel_and_bot() {
    let b = bridge(10);
    let e = b.discord_to_minecraft(&message(10, "mat", 15, false)).unwrap();
    assert_eq!(e.username, "mat#0015");
    assert_eq!(e.content, "hello");
    assert_eq!(e.context, DiscordContext { channel_id: 10, message_id: 77 });
    assert!(b.discord_to_minecraft(&message(11, "mat", 15, false)).is_none());
    assert!(b.discord_to_minecraft(&message(10, "bot", 15, true)).is_none());
    // a bot without discriminator passes
    let e = b.discord_to_minecraft(&message(10, "hook", 0, true)).unwrap();
    assert_eq!(e.username, "hook");
}

#[test]
fn reactions_tell_what_became_of_a_message() {
    let context = DiscordContext { channel_id: 3, message_id: 4 };
    for (kind, emoji) in [
        (BridgeInfoKind::Ack, '\u{1F44D}'),
        (BridgeInfoKind::NotInServer, '\u{1F44E}'),
        (BridgeInfoKind::IllegalMessage, '\u{1F6AB}'),
    ] {
        let r = handle_bridge_info_events(&BridgeInfoEvent { kind, context });
        assert_eq!(r.channel_id, 3);
        assert_eq!(r.message_id, 4);
        assert_eq!(r.emoji, emoji);
    }
}
