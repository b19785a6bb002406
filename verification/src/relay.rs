//! The bridge as a whole.
//!
//! One bridge joins one Minecraft session to one Discord channel. It owns the
//! throttle for what goes to Minecraft, the window that collapses what comes
//! from Minecraft, and the batcher for what goes to Discord, and it fixes the
//! order in which they work within a tick.

use vstd::prelude::*;
use crate::avoid_kick::{drained_all, requests_view, AvoidKickPlugin, OutboundThrottle, SendChatEvent};
use crate::bridge::{bridge_info, minecraft_line, to_minecraft, BridgeInfoEvent, BridgeInfoKind, ToMinecraftEvent};
use crate::discord::{CreateMessage, CreateReaction, MessageCreate};
use crate::discord_bridge::{
    display_name,
    escaped,
    handle_bridge_info_events,
    reaction_emoji,
    BatchState,
    DiscordBridge,
    DiscordBridgePlugin,
};
use crate::recent::{DedupWindow, FromMinecraftEvent, Notice, Recent, RecentFromMinecraft};
use crate::throttle::PendingLine;

verus! {

/// The identity that the bridge has on the server.
pub struct LocalPlayer {
    pub entity: u64,
    pub name: String,
}

/// The model of a [`LocalPlayer`].
pub struct Player {
    pub entity: u64,
    pub name: Seq<char>,
}

impl View for LocalPlayer {
    type V = Player;

    open spec fn view(&self) -> Player {
        Player { entity: self.entity, name: self.name@ }
    }
}

/// A chat message arrived from the server.
pub struct ChatReceivedEvent<P> {
    /// The message as text.
    pub content: String,
    /// The name of the sender, where the message has one.
    pub username: Option<String>,
    pub packet: P,
}

/// The model of a [`ChatReceivedEvent`].
pub struct Received<P> {
    pub content: Seq<char>,
    pub username: Option<Seq<char>>,
    pub packet: P,
}

impl<P> View for ChatReceivedEvent<P> {
    type V = Received<P>;

    open spec fn view(&self) -> Received<P> {
        Received {
            content: self.content@,
            username: match self.username {
                Some(name) => Some(name@),
                None => None,
            },
            packet: self.packet,
        }
    }
}

/// The models of a sequence of received messages, in the same order.
pub open spec fn received_view<P>(events: Seq<ChatReceivedEvent<P>>) -> Seq<Received<P>> {
    events.map_values(|event: ChatReceivedEvent<P>| event@)
}

/// The batcher after the texts were enqueued in order, each with its
/// markdown escaped.
pub open spec fn show_all(batch: BatchState, texts: Seq<Seq<char>>) -> BatchState
    decreases texts.len(),
{
    if texts.len() == 0 {
        batch
    } else {
        show_all(batch, texts.drop_last()).enqueue(escaped(texts.last()))
    }
}

/// The texts of the notices, in order.
pub open spec fn notice_texts<P>(notices: Seq<Notice<P>>) -> Seq<Seq<char>> {
    notices.map_values(|notice: Notice<P>| notice.content)
}

/// The events show the notices: the same texts in the same order, each with
/// the notice's packet or a clone of it.
pub open spec fn shows<P: Clone>(events: Seq<FromMinecraftEvent<P>>, notices: Seq<Notice<P>>) -> bool {
    &&& events.len() == notices.len()
    &&& forall|i: int|
        0 <= i < events.len() ==> (#[trigger] events[i]).content@ == notices[i].content && cloned(
            notices[i].packet,
            events[i].packet,
        )
}

/// The model of the bridge.
pub struct Relay<P> {
    pub throttle: OutboundThrottle,
    pub window: DedupWindow<P>,
    pub batch: BatchState,
    pub local: Option<Player>,
}

impl<P> Relay<P> {
    /// Every part is well formed.
    pub open spec fn wf(self) -> bool {
        &&& self.throttle.wf()
        &&& self.window.wf()
        &&& self.batch.wf()
    }

    /// The entity of the identity on the server, if there is one.
    pub open spec fn local_entity(self) -> Option<u64> {
        match self.local {
            Some(player) => Some(player.entity),
            None => None,
        }
    }

    /// Whether a message with this sender is one that the bridge sent itself.
    pub open spec fn is_own(self, username: Option<Seq<char>>) -> bool {
        self.local matches Some(player) && username == Some(player.name)
    }

    /// The bridge after the identity `player` joined the server.
    pub open spec fn login(self, player: Player) -> Self {
        Relay { local: Some(player), ..self }
    }

    /// The bridge after its identity left the server: the throttle of the
    /// identity and the window are gone.
    pub open spec fn logout(self) -> Self {
        match self.local {
            Some(player) => Relay {
                throttle: self.throttle.remove(player.entity),
                window: DedupWindow { entries: Seq::empty() },
                local: None,
                ..self
            },
            None => self,
        }
    }

    /// The bridge after a message for Minecraft came in at time `now`: the
    /// line waits in the throttle of the identity on the server if it is
    /// legal and there is such an identity.
    pub open spec fn send(self, line: Seq<char>, now: u64) -> Self {
        match self.local {
            Some(player) if bridge_info(self.local_entity(), line) == BridgeInfoKind::Ack => Relay {
                throttle: self.throttle.enqueue(
                    player.entity,
                    PendingLine { content: line, enqueued_at: now },
                ),
                ..self
            },
            _ => self,
        }
    }

    /// What is shown for a message from Minecraft: nothing for a message of
    /// the bridge's own identity, and else what the window shows.
    pub open spec fn received_notice(self, event: Received<P>) -> Option<Notice<P>> {
        if self.is_own(event.username) {
            None
        } else {
            match self.window.observe_text(event.content) {
                Some(text) => Some(Notice { content: text, packet: event.packet }),
                None => None,
            }
        }
    }

    /// The bridge after a message from Minecraft came in at time `now`: the
    /// window has seen it, and what is shown for it waits in the batcher.
    /// A message of the bridge's own identity changes nothing.
    pub open spec fn receive(self, event: Received<P>, now: u64) -> Self {
        if self.is_own(event.username) {
            self
        } else {
            Relay {
                window: self.window.observe(event.content, event.packet, now),
                batch: match self.window.observe_text(event.content) {
                    Some(text) => self.batch.enqueue(escaped(text)),
                    None => self.batch,
                },
                ..self
            }
        }
    }

    /// The bridge after the messages came in at time `now`, in order.
    pub open spec fn receive_all(self, events: Seq<Received<P>>, now: u64) -> Self
        decreases events.len(),
    {
        if events.len() == 0 {
            self
        } else {
            self.receive_all(events.drop_last(), now).receive(events.last(), now)
        }
    }

    /// What is shown for the messages, in order.
    pub open spec fn received_notices(self, events: Seq<Received<P>>, now: u64) -> Seq<Notice<P>>
        decreases events.len(),
    {
        if events.len() == 0 {
            Seq::empty()
        } else {
            let shown = self.received_notices(events.drop_last(), now);
            match self.receive_all(events.drop_last(), now).received_notice(events.last()) {
                Some(notice) => shown.push(notice),
                None => shown,
            }
        }
    }

    /// The bridge after the stale entries left the window at time `now`: what
    /// is shown for them waits in the batcher.
    pub open spec fn pop_stale(self, now: u64) -> Self {
        Relay {
            window: self.window.pop_stale(now),
            batch: show_all(self.batch, notice_texts(self.window.popped_notices(now))),
            ..self
        }
    }

    /// The bridge after a flush of the batcher.
    pub open spec fn flush(self) -> Self {
        Relay { batch: self.batch.flush(), ..self }
    }

    /// The bridge after a tick of every throttle.
    pub open spec fn drain(self) -> Self {
        Relay { throttle: self.throttle.tick_all(), ..self }
    }

    /// The bridge just before the flush of a tick at time `now` in which the
    /// messages `events` came in: stale entries have left the window, then
    /// the messages were taken in.
    pub open spec fn before_flush(self, now: u64, events: Seq<Received<P>>) -> Self {
        self.pop_stale(now).receive_all(events, now)
    }

    /// The bridge after a tick at time `now` in which the messages `events`
    /// came in. The order is fixed: stale entries leave the window, the
    /// messages are taken in, the batcher flushes, the throttles drain.
    pub open spec fn tick(self, now: u64, events: Seq<Received<P>>) -> Self {
        self.before_flush(now, events).flush().drain()
    }

    /// What a tick shows: first the last notices of the entries that left the
    /// window, then what the messages brought.
    pub open spec fn tick_notices(self, now: u64, events: Seq<Received<P>>) -> Seq<Notice<P>> {
        self.window.popped_notices(now) + self.pop_stale(now).received_notices(events, now)
    }
}

/// What a tick hands out.
pub struct TickOutput<P> {
    /// What to show of the chat from Minecraft, in order.
    pub from_minecraft: Vec<FromMinecraftEvent<P>>,
    /// The message to post on Discord, if there is one.
    pub message: Option<CreateMessage>,
    /// The chat to send to Minecraft, in order.
    pub chat: Vec<SendChatEvent>,
}

/// The bridge between one Minecraft session and one Discord channel.
pub struct BridgePlugin<P> {
    avoid_kick: AvoidKickPlugin,
    recent: RecentFromMinecraft<P>,
    discord: DiscordBridge,
    local: Option<LocalPlayer>,
}

impl<P> View for BridgePlugin<P> {
    type V = Relay<P>;

    closed spec fn view(&self) -> Relay<P> {
        Relay {
            throttle: self.avoid_kick@,
            window: self.recent@,
            batch: self.discord@,
            local: match self.local {
                Some(player) => Some(player@),
                None => None,
            },
        }
    }
}

impl<P> BridgePlugin<P> {
    /// Every part is well formed.
    pub open spec fn wf(&self) -> bool {
        self@.wf()
    }

    /// A bridge for the channel, with nothing waiting and no identity on the
    /// server.
    pub fn new(channel: &DiscordBridgePlugin) -> (bridge: Self)
        ensures
            bridge@.throttle.sessions == Seq::<crate::avoid_kick::Session>::empty(),
            bridge@.window.entries == Seq::<Recent<P>>::empty(),
            bridge@.batch == (BatchState {
                channel_id: channel.channel_id,
                queue: Seq::empty(),
                rate_credit: 0,
            }),
            bridge@.local is None,
            bridge.wf(),
    {
        BridgePlugin {
            avoid_kick: AvoidKickPlugin::new(),
            recent: RecentFromMinecraft::new(),
            discord: channel.build(),
            local: None,
        }
    }

    /// The throttle for what goes to Minecraft.
    pub fn avoid_kick(&self) -> (part: &AvoidKickPlugin)
        ensures
            part@ == self@.throttle,
    {
        &self.avoid_kick
    }

    /// The window of what came from Minecraft.
    pub fn recent(&self) -> (part: &RecentFromMinecraft<P>)
        ensures
            part@ == self@.window,
    {
        &self.recent
    }

    /// The batcher for what goes to Discord.
    pub fn discord(&self) -> (part: &DiscordBridge)
        ensures
            part@ == self@.batch,
    {
        &self.discord
    }

    /// The identity on the server, if there is one.
    pub fn local(&self) -> (player: &Option<LocalPlayer>)
        ensures
            match *player {
                Some(p) => self@.local == Some(p@),
                None => self@.local is None,
            },
    {
        &self.local
    }

    /// The identity `player` joined the server.
    pub fn login(&mut self, player: LocalPlayer)
        ensures
            final(self)@ == old(self)@.login(player@),
    {
        self.local = Some(player);
    }

    /// The identity left the server. Its throttle is dropped with the lines
    /// that wait in it, and the window is emptied.
    pub fn logout(&mut self)
        requires
            old(self).wf(),
        ensures
            final(self)@ == old(self)@.logout(),
            final(self).wf(),
    {
        let player = self.local.take();
        match player {
            Some(player) => {
                self.avoid_kick.remove(player.entity);
                self.recent = RecentFromMinecraft::new();
                assert(self@.window.entries =~= Seq::<Recent<P>>::empty());
            },
            None => {},
        }
    }

    fn is_own(&self, username: &Option<String>) -> (own: bool)
        ensures
            own == self@.is_own(
                match *username {
                    Some(name) => Some(name@),
                    None => None,
                },
            ),
    {
        match &self.local {
            Some(player) => match username {
                Some(name) => *name == player.name,
                None => false,
            },
            None => false,
        }
    }

    /// Takes in a message for Minecraft at time `now` and answers what became
    /// of it. An illegal line is refused. A legal line goes to the throttle
    /// of the identity on the server; without such an identity it is dropped.
    pub fn to_minecraft<T>(&mut self, event: ToMinecraftEvent<T>, now: u64) -> (answer:
        BridgeInfoEvent<T>)
        requires
            old(self).wf(),
        ensures
            answer.context == event.context,
            answer.kind == bridge_info(
                old(self)@.local_entity(),
                minecraft_line(event.username@, event.content@),
            ),
            final(self)@ == old(self)@.send(minecraft_line(event.username@, event.content@), now),
            final(self).wf(),
    {
        let local: Option<u64> = match &self.local {
            Some(player) => Some(player.entity),
            None => None,
        };
        let (answer, request) = to_minecraft(local, event);
        match request {
            Some(request) => {
                self.avoid_kick.send_chat_listener(request, now);
            },
            None => {},
        }
        answer
    }

    /// Takes in a Discord message at time `now`. A message of the bridge's
    /// channel that is not from a bot goes on to Minecraft, and the reaction
    /// that tells its author what became of it is returned.
    pub fn discord_to_minecraft(&mut self, event: &MessageCreate, now: u64) -> (reaction: Option<
        CreateReaction,
    >)
        requires
            old(self).wf(),
        ensures
            final(self).wf(),
            ({
                let passes = !(event.author.bot && event.author.discriminator != 0)
                    && event.channel_id == old(self)@.batch.channel_id;
                let line = minecraft_line(
                    display_name(event.author.name@, event.author.discriminator),
                    event.content@,
                );
                if passes {
                    &&& final(self)@ == old(self)@.send(line, now)
                    &&& reaction matches Some(r)
                    &&& r.channel_id == event.channel_id
                    &&& r.message_id == event.id
                    &&& r.emoji == reaction_emoji(bridge_info(old(self)@.local_entity(), line))
                } else {
                    final(self)@ == old(self)@ && reaction is None
                }
            }),
    {
        match self.discord.discord_to_minecraft(event) {
            Some(forwarded) => {
                let answer = self.to_minecraft(forwarded, now);
                Some(handle_bridge_info_events(&answer))
            },
            None => None,
        }
    }

    /// Takes in a message from Minecraft at time `now`. A message of the
    /// bridge's own identity is passed over. Any other goes through the
    /// window, and what the window shows for it is put in the batcher and
    /// returned.
    pub fn from_minecraft(&mut self, event: ChatReceivedEvent<P>, now: u64) -> (shown: Option<
        FromMinecraftEvent<P>,
    >) where P: Clone
        requires
            old(self).wf(),
        ensures
            final(self)@ == old(self)@.receive(event@, now),
            final(self).wf(),
            match old(self)@.received_notice(event@) {
                Some(notice) => shown matches Some(e) && e.content@ == notice.content && cloned(
                    notice.packet,
                    e.packet,
                ),
                None => shown is None,
            },
    {
        if self.is_own(&event.username) {
            return None;
        }
        let shown = self.recent.from_minecraft(event.content, event.packet, now);
        match &shown {
            Some(e) => {
                self.discord.minecraft_to_discord_queue(e.content.as_str());
            },
            None => {},
        }
        shown
    }

    /// Pops the stale and surplus entries off the window at time `now`. What
    /// is shown for them one last time is put in the batcher and returned.
    pub fn pop_no_longer_recent_messages(&mut self, now: u64) -> (events: Vec<
        FromMinecraftEvent<P>,
    >)
        requires
            old(self).wf(),
        ensures
            final(self)@ == old(self)@.pop_stale(now),
            crate::recent::events_view(events@) == old(self)@.window.popped_notices(now),
            final(self).wf(),
    {
        let events = self.recent.pop_no_longer_recent_messages(now);
        let ghost notices = crate::recent::events_view(events@);
        let ghost before = old(self)@;
        assert(notice_texts(notices).take(0) =~= Seq::<Seq<char>>::empty());
        let mut i: usize = 0;
        while i < events.len()
            invariant
                i <= events@.len(),
                notices == crate::recent::events_view(events@),
                self@.throttle == before.throttle,
                self@.local == before.local,
                self@.window == before.window.pop_stale(now),
                self@.window.wf(),
                self@.batch == show_all(before.batch, notice_texts(notices).take(i as int)),
                before.batch.wf(),
            decreases events@.len() - i,
        {
            proof {
                let texts = notice_texts(notices);
                assert(texts.take(i + 1).drop_last() =~= texts.take(i as int));
                assert(texts.take(i + 1).last() == events@[i as int].content@);
            }
            self.discord.minecraft_to_discord_queue(events[i].content.as_str());
            i += 1;
        }
        proof {
            assert(notice_texts(notices).take(i as int) =~= notice_texts(notices));
            lemma_show_all_wf(before.batch, notice_texts(notices));
        }
        events
    }

    /// Flushes the batcher and returns the message to post, if there is one.
    pub fn flush_to_discord_queue(&mut self) -> (message: Option<CreateMessage>)
        requires
            old(self).wf(),
        ensures
            final(self)@ == old(self)@.flush(),
            match old(self)@.batch.payload() {
                Some(text) => message matches Some(m) && m.channel_id == old(self)@.batch.channel_id
                    && m.content@ == text,
                None => message is None,
            },
            final(self).wf(),
    {
        self.discord.flush_to_discord_queue()
    }

    /// Runs one tick of every throttle and returns the chat to send.
    pub fn drain_chat_message_queue(&mut self) -> (chat: Vec<SendChatEvent>)
        requires
            old(self).wf(),
        ensures
            final(self)@ == old(self)@.drain(),
            requests_view(chat@) == drained_all(old(self)@.throttle.sessions),
            final(self).wf(),
    {
        self.avoid_kick.drain_chat_message_queue()
    }
}

impl<P: Clone> BridgePlugin<P> {
    /// Takes in the messages from Minecraft at time `now`, in order, and
    /// returns what is shown for them.
    pub fn receive_all(&mut self, received: Vec<ChatReceivedEvent<P>>, now: u64) -> (events: Vec<
        FromMinecraftEvent<P>,
    >)
        requires
            old(self).wf(),
        ensures
            final(self)@ == old(self)@.receive_all(received_view(received@), now),
            shows(events@, old(self)@.received_notices(received_view(received@), now)),
            final(self).wf(),
    {
        let mut events: Vec<FromMinecraftEvent<P>> = Vec::new();
        let ghost before = old(self)@;
        let ghost all = received_view(received@);
        assert(all.take(0) =~= Seq::<Received<P>>::empty());
        for event in it: received
            invariant
                it.seq() == received@,
                all == received_view(received@),
                self.wf(),
                self@ == before.receive_all(all.take(it.index()), now),
                shows(events@, before.received_notices(all.take(it.index()), now)),
        {
            proof {
                let next = all.take(it.index() + 1);
                assert(next.drop_last() =~= all.take(it.index()));
                assert(next.last() == event@);
            }
            let shown = self.from_minecraft(event, now);
            match shown {
                Some(e) => {
                    events.push(e);
                },
                None => {},
            }
        }
        assert(all.take(all.len() as int) =~= all);
        events
    }

    /// Runs one tick at time `now`, in which the messages `received` came in
    /// from Minecraft. The order is fixed: stale entries leave the window,
    /// the messages are taken in, the batcher flushes, the throttles drain.
    pub fn tick(&mut self, now: u64, received: Vec<ChatReceivedEvent<P>>) -> (out: TickOutput<P>)
        requires
            old(self).wf(),
        ensures
            final(self)@ == old(self)@.tick(now, received_view(received@)),
            shows(out.from_minecraft@, old(self)@.tick_notices(now, received_view(received@))),
            match old(self)@.before_flush(now, received_view(received@)).batch.payload() {
                Some(text) => out.message matches Some(m) && m.channel_id == old(
                    self,
                )@.batch.channel_id && m.content@ == text,
                None => out.message is None,
            },
            requests_view(out.chat@) == drained_all(old(self)@.throttle.sessions),
            final(self).wf(),
    {
        let ghost before = old(self)@;
        let ghost all = received_view(received@);
        let mut from_minecraft = self.pop_no_longer_recent_messages(now);
        let ghost popped = from_minecraft@;
        let mut observed = self.receive_all(received, now);
        let ghost seen = observed@;
        from_minecraft.append(&mut observed);
        proof {
            let first = before.window.popped_notices(now);
            let second = before.pop_stale(now).received_notices(all, now);
            assert(from_minecraft@ =~= popped + seen);
            assert forall|i: int| 0 <= i < from_minecraft@.len() implies (
            #[trigger] from_minecraft@[i]).content@ == (first + second)[i].content && cloned(
                (first + second)[i].packet,
                from_minecraft@[i].packet,
            ) by {
                if i < popped.len() {
                    assert(from_minecraft@[i] == popped[i]);
                    assert(crate::recent::events_view(popped)[i] == popped[i]@);
                } else {
                    assert(from_minecraft@[i] == seen[i - popped.len()]);
                }
            }
            lemma_receive_all_keeps(before.pop_stale(now), all, now);
            lemma_show_all_wf(
                before.batch,
                notice_texts(before.window.popped_notices(now)),
            );
        }
        let message = self.flush_to_discord_queue();
        let chat = self.drain_chat_message_queue();
        TickOutput { from_minecraft, message, chat }
    }
}

/// Messages from Minecraft change neither the throttles, nor the identity on
/// the server, nor the channel.
pub proof fn lemma_receive_all_keeps<P>(relay: Relay<P>, events: Seq<Received<P>>, now: u64)
    ensures
        relay.receive_all(events, now).throttle == relay.throttle,
        relay.receive_all(events, now).local == relay.local,
        relay.receive_all(events, now).batch.channel_id == relay.batch.channel_id,
    decreases events.len(),
{
    if events.len() > 0 {
        lemma_receive_all_keeps(relay, events.drop_last(), now);
    }
}

/// Showing texts keeps the batcher well formed.
pub proof fn lemma_show_all_wf(batch: BatchState, texts: Seq<Seq<char>>)
    requires
        batch.wf(),
    ensures
        show_all(batch, texts).wf(),
        show_all(batch, texts).channel_id == batch.channel_id,
        show_all(batch, texts).rate_credit == batch.rate_credit,
    decreases texts.len(),
{
    if texts.len() > 0 {
        lemma_show_all_wf(batch, texts.drop_last());
    }
}

} // verus!
