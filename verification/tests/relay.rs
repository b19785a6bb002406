use chat_bridge::bridge::{format_minecraft_line, to_minecraft, BridgeInfoKind, ToMinecraftEvent};
use chat_bridge::discord::{Author, MessageCreate};
use chat_bridge::discord_bridge::DiscordBridgePlugin;
use chat_bridge::relay::{BridgePlugin, ChatReceivedEvent, LocalPlayer};

fn request(username: &str, content: &str, context: u8) -> ToMinecraftEvent<u8> {
    ToMinecraftEvent { username: username.to_string(), content: content.to_string(), context }
}

fn received(content: &str, username: Option<&str>, packet: u32) -> ChatReceivedEvent<u32> {
    ChatReceivedEvent {
        content: content.to_string(),
        username: username.map(|s| s.to_string()),
        packet,
    }
}

fn bridge() -> BridgePlugin<u32> {
    BridgePlugin::new(&DiscordBridgePlugin { channel_id: 10 })
}

fn online() -> BridgePlugin<u32> {
    let mut b = bridge();
    b.login(LocalPlayer { entity: 1, name: "potatobot".to_string() });
    b
}

#[test]
fn minecraft_line_is_an_action_of_the_user() {
    assert_eq!(format_minecraft_line("mat", "hi all"), "/me <mat> hi all");
    assert_eq!(format_minecraft_line("", ""), "/me <> ");
}

#[test]
fn to_minecraft_answers_by_legality_then_presence() {
    let (answer, req) = to_minecraft(Some(4), request("mat", "hi", 9));
    assert_eq!(answer.kind, BridgeInfoKind::Ack);
    assert_eq!(answer.context, 9);
    let req = req.unwrap();
    assert_eq!(req.entity(), 4);
    assert_eq!(req.content().as_str(), "/me <mat> hi");

    let (answer, req) = to_minecraft(None, request("mat", "hi", 9));
    assert_eq!(answer.kind, BridgeInfoKind::NotInServer);
    assert!(req.is_none());

    let (answer, req) = to_minecraft(Some(4), request("mat", "a\u{a7}b", 9));
    assert_eq!(answer.kind, BridgeInfoKind::IllegalMessage);
    assert!(req.is_none());

    // an illegal line is refused even when nobody is on the server
    let (answer, _) = to_minecraft(None, request("mat", "a\nb", 9));
    assert_eq!(answer.kind, BridgeInfoKind::IllegalMessage);

    // the limit holds for the whole line: 9 bytes of frame and name
    let (answer, _) = to_minecraft(Some(4), request("m", &"x".repeat(248), 9));
    assert_eq!(answer.kind, BridgeInfoKind::Ack);
    let (answer, _) = to_minecraft(Some(4), request("m", &"x".repeat(249), 9));
    assert_eq!(answer.kind, BridgeInfoKind::IllegalMessage);
}

#[test]
fn bridge_queues_acknowledged_lines_only() {
    let mut b = bridge();
    assert_eq!(b.to_minecraft(request("mat", "hi", 1), 0).kind, BridgeInfoKind::NotInServer);
    assert!(!b.avoid_kick().has_session(1));
    b.login(LocalPlayer { entity: 1, name: "potatobot".to_string() });
    assert_eq!(b.to_minecraft(request("mat", "bad\u{7f}", 2), 0).kind, BridgeInfoKind::IllegalMessage);
    assert!(!b.avoid_kick().has_session(1));
    assert_eq!(b.to_minecraft(request("mat", "hi", 3), 5).kind, BridgeInfoKind::Ack);
    let state = b.avoid_kick().get(1).unwrap();
    assert_eq!(state.queued_messages().len(), 1);
    assert_eq!(state.queued_messages()[0].content, "/me <mat> hi");
    assert_eq!(state.queued_messages()[0].enqueued_at, 5);
    let chat = b.drain_chat_message_queue();
    assert_eq!(chat.len(), 1);
    assert_eq!(chat[0].content().as_str(), "/me <mat> hi");
}

#[test]
fn discord_message_gets_a_reaction() {
    let mut b = online();
    let msg = MessageCreate {
        id: 70,
        channel_id: 10,
        author: Author { id: 1, name: "mat".to_string(), discriminator: 1, bot: false },
        content: "hello".to_string(),
    };
    let r = b.discord_to_minecraft(&msg, 0).unwrap();
    assert_eq!((r.channel_id, r.message_id, r.emoji), (10, 70, '\u{1F44D}'));
    assert_eq!(
        b.avoid_kick().get(1).unwrap().queued_messages()[0].content,
        "/me <mat#0001> hello"
    );
    let other = MessageCreate { channel_id: 11, ..msg };
    assert!(b.discord_to_minecraft(&other, 0).is_none());
    assert_eq!(b.avoid_kick().get(1).unwrap().queued_messages().len(), 1);
}

#[test]
fn own_messages_are_passed_over() {
    let mut b = online();
    assert!(b.from_minecraft(received("hi", Some("potatobot"), 1), 0).is_none());
    assert_eq!(b.recent().len(), 0);
    assert_eq!(b.discord().queue_len(), 0);
    let shown = b.from_minecraft(received("hi", Some("steve"), 2), 0).unwrap();
    assert_eq!(shown.content, "hi");
    assert_eq!(shown.packet, 2);
    assert_eq!(b.recent().len(), 1);
    assert_eq!(b.discord().queue_len(), 1);
    assert!(b.from_minecraft(received("sys", None, 3), 0).is_some());
}

#[test]
fn tick_works_in_fixed_order() {
    let mut b = online();
    // three sightings at time 0: the third is silent
    let out = b.tick(
        0,
        vec![
            received("<s> a_b", Some("s"), 1),
            received("<s> a_b", Some("s"), 2),
            received("<s> a_b", Some("s"), 3),
        ],
    );
    let shown: Vec<(String, u32)> =
        out.from_minecraft.into_iter().map(|e| (e.content, e.packet)).collect();
    assert_eq!(
        shown,
        vec![("<s> a_b".to_string(), 1), ("<s> a_b [x2]".to_string(), 2)]
    );
    // the flush of the same tick posts what was just shown, escaped
    let message = out.message.unwrap();
    assert_eq!(message.channel_id, 10);
    assert_eq!(message.content, "<s> a\\_b\n<s> a\\_b [x2]");
    assert!(out.chat.is_empty());

    assert_eq!(b.to_minecraft(request("mat", "yo", 0), 1).kind, BridgeInfoKind::Ack);
    // at time 3 the entry is stale: its last notice comes before new messages
    let out = b.tick(3, vec![received("new", None, 9)]);
    let shown: Vec<(String, u32)> =
        out.from_minecraft.into_iter().map(|e| (e.content, e.packet)).collect();
    assert_eq!(shown, vec![("<s> a_b [x3]".to_string(), 3), ("new".to_string(), 9)]);
    assert_eq!(out.message.unwrap().content, "<s> a\\_b [x3]\nnew");
    assert_eq!(out.chat.len(), 1);
    assert_eq!(out.chat[0].entity(), 1);
    assert_eq!(out.chat[0].content().as_str(), "/me <mat> yo");
    assert_eq!(b.recent().len(), 1);
}

#[test]
fn logout_drops_throttle_and_window() {
    let mut b = online();
    b.to_minecraft(request("mat", "hi", 0), 0);
    b.from_minecraft(received("x", None, 1), 0);
    b.logout();
    assert!(b.local().is_none());
    assert!(!b.avoid_kick().has_session(1));
    assert_eq!(b.recent().len(), 0);
    // what waits for Discord stays
    assert_eq!(b.discord().queue_len(), 1);
    assert_eq!(b.to_minecraft(request("mat", "hi", 0), 0).kind, BridgeInfoKind::NotInServer);
    b.logout();
    assert!(b.local().is_none());
}
