//! The outbound throttle of all game identities.
//!
//! Requests to send chat are held back per identity and released tick by
//! tick, so that no identity is kicked for spamming. An identity that was
//! never seen gets its throttle with its first request. Only legal messages
//! can become requests, so only legal messages are ever released.

use vstd::prelude::*;
use crate::legal::{legal_to_minecraft, message_legal_to_minecraft};
use crate::throttle::{AvoidChatKick, PendingLine, PendingOutboundLine, ThrottleState};

verus! {

/// The model of a [`SendChatEvent`]: a message and the identity that is to
/// send it.
pub struct ChatRequest {
    pub entity: u64,
    pub content: Seq<char>,
}

/// A request that the identity `entity` send a chat message. Its content is
/// legal to send.
pub struct SendChatEvent {
    entity: u64,
    content: String,
}

impl View for SendChatEvent {
    type V = ChatRequest;

    closed spec fn view(&self) -> ChatRequest {
        ChatRequest { entity: self.entity, content: self.content@ }
    }
}

impl SendChatEvent {
    #[verifier::type_invariant]
    spec fn content_is_legal(self) -> bool {
        legal_to_minecraft(self.content@)
    }

    /// A request to send `content`, or nothing if `content` is not legal to
    /// send.
    pub fn new(entity: u64, content: &str) -> (event: Option<Self>)
        ensures
            event is Some <==> legal_to_minecraft(content@),
            event matches Some(e) ==> e@ == (ChatRequest { entity, content: content@ }),
    {
        if message_legal_to_minecraft(content) {
            Some(SendChatEvent { entity, content: content.to_owned() })
        } else {
            None
        }
    }

    /// The identity that is to send the message.
    pub fn entity(&self) -> (entity: u64)
        ensures
            entity == self@.entity,
    {
        self.entity
    }

    /// The message, which is legal to send.
    pub fn content(&self) -> (content: &String)
        ensures
            content@ == self@.content,
            legal_to_minecraft(content@),
    {
        proof {
            use_type_invariant(self);
        }
        &self.content
    }
}

/// The models of a sequence of requests, in the same order.
pub open spec fn requests_view(events: Seq<SendChatEvent>) -> Seq<ChatRequest> {
    events.map_values(|event: SendChatEvent| event@)
}

/// The lines of one identity as requests of that identity.
pub open spec fn requests_of(entity: u64, lines: Seq<PendingLine>) -> Seq<ChatRequest> {
    lines.map_values(|line: PendingLine| ChatRequest { entity, content: line.content })
}

/// The model of one identity's throttle in the registry.
pub struct Session {
    pub entity: u64,
    pub throttle: ThrottleState,
}

impl Session {
    /// The session after a tick of its throttle.
    pub open spec fn tick(self) -> Session {
        Session { entity: self.entity, throttle: self.throttle.tick() }
    }

    /// The requests that a tick releases.
    pub open spec fn drained(self) -> Seq<ChatRequest> {
        requests_of(self.entity, self.throttle.drained())
    }

    /// The credit is within its bound and every waiting line is legal.
    pub open spec fn wf(self) -> bool {
        &&& self.throttle.wf()
        &&& forall|k: int|
            0 <= k < self.throttle.queue.len() ==> legal_to_minecraft(
                #[trigger] self.throttle.queue[k].content,
            )
    }
}

/// The requests that a tick of every session releases: those of the first
/// session first, each session's oldest first.
pub open spec fn drained_all(sessions: Seq<Session>) -> Seq<ChatRequest>
    decreases sessions.len(),
{
    if sessions.len() == 0 {
        Seq::empty()
    } else {
        drained_all(sessions.drop_last()) + sessions.last().drained()
    }
}

/// The model of the registry: the sessions in the order in which their
/// identities were first seen.
pub struct OutboundThrottle {
    pub sessions: Seq<Session>,
}

impl OutboundThrottle {
    /// No identity has two sessions, and every session is well formed.
    pub open spec fn wf(self) -> bool {
        &&& forall|i: int, j: int|
            0 <= i < j < self.sessions.len() ==> self.sessions[i].entity != self.sessions[j].entity
        &&& forall|i: int| 0 <= i < self.sessions.len() ==> (#[trigger] self.sessions[i]).wf()
    }

    /// The identities, in order.
    pub open spec fn entities(self) -> Seq<u64> {
        self.sessions.map_values(|session: Session| session.entity)
    }

    /// Where the session of `entity` stands, if there is one.
    pub open spec fn position(self, entity: u64) -> Option<int> {
        self.entities().index_of_first(entity)
    }

    /// Whether `entity` has a session.
    pub open spec fn tracks(self, entity: u64) -> bool {
        self.position(entity) is Some
    }

    /// The throttle of `entity`, which has a session.
    pub open spec fn throttle_of(self, entity: u64) -> ThrottleState
        recommends
            self.tracks(entity),
    {
        self.sessions[self.position(entity).unwrap()].throttle
    }

    /// The registry after `line` was enqueued for `entity`: at the back of the
    /// queue of its session, or in a new session at the end.
    pub open spec fn enqueue(self, entity: u64, line: PendingLine) -> Self {
        match self.position(entity) {
            Some(i) => OutboundThrottle {
                sessions: self.sessions.update(
                    i,
                    Session { entity, throttle: self.sessions[i].throttle.enqueue(line) },
                ),
            },
            None => OutboundThrottle {
                sessions: self.sessions.push(
                    Session { entity, throttle: ThrottleState::empty().enqueue(line) },
                ),
            },
        }
    }

    /// The registry after a tick of the session of `entity`, if it has one.
    pub open spec fn tick(self, entity: u64) -> Self {
        match self.position(entity) {
            Some(i) => OutboundThrottle { sessions: self.sessions.update(i, self.sessions[i].tick()) },
            None => self,
        }
    }

    /// The requests that a tick of the session of `entity` releases.
    pub open spec fn drained(self, entity: u64) -> Seq<ChatRequest> {
        match self.position(entity) {
            Some(i) => self.sessions[i].drained(),
            None => Seq::empty(),
        }
    }

    /// The registry after a tick of every session.
    pub open spec fn tick_all(self) -> Self {
        OutboundThrottle { sessions: self.sessions.map_values(|session: Session| session.tick()) }
    }

    /// The registry without the session of `entity`.
    pub open spec fn remove(self, entity: u64) -> Self {
        match self.position(entity) {
            Some(i) => OutboundThrottle { sessions: self.sessions.remove(i) },
            None => self,
        }
    }
}

/// One identity's throttle in the registry.
pub struct ThrottleSession {
    entity: u64,
    state: AvoidChatKick,
}

impl View for ThrottleSession {
    type V = Session;

    closed spec fn view(&self) -> Session {
        Session { entity: self.entity, throttle: self.state@ }
    }
}

/// The outbound throttle: one [`AvoidChatKick`] for every identity that was
/// asked to send chat.
pub struct AvoidKickPlugin {
    sessions: Vec<ThrottleSession>,
}

impl View for AvoidKickPlugin {
    type V = OutboundThrottle;

    closed spec fn view(&self) -> OutboundThrottle {
        OutboundThrottle { sessions: self.sessions@.map_values(|session: ThrottleSession| session@) }
    }
}

/// Ticks one session and appends the requests it releases to `sent`.
fn tick_session(session: &mut ThrottleSession, sent: &mut Vec<SendChatEvent>)
    requires
        old(session)@.wf(),
    ensures
        final(session)@ == old(session)@.tick(),
        final(session)@.wf(),
        requests_view(final(sent)@) == requests_view(old(sent)@) + old(session)@.drained(),
{
    let lines = session.state.tick();
    let ghost before = old(session)@;
    let ghost released = before.throttle.drained();
    assert(session@.wf()) by {
        assert forall|k: int| 0 <= k < session@.throttle.queue.len() implies legal_to_minecraft(
            #[trigger] session@.throttle.queue[k].content,
        ) by {
            assert(session@.throttle.queue[k] == before.throttle.queue[k
                + before.throttle.drain_count()]);
        }
    }
    assert(requests_view(sent@) =~= requests_view(old(sent)@) + requests_of(
        before.entity,
        released.take(0),
    ));
    let mut k: usize = 0;
    while k < lines.len()
        invariant
            k <= lines@.len(),
            lines@.map_values(|line: PendingOutboundLine| line@) == released,
            forall|m: int| 0 <= m < released.len() ==> legal_to_minecraft(released[m].content),
            session.entity == before.entity,
            requests_view(sent@) == requests_view(old(sent)@) + requests_of(
                before.entity,
                released.take(k as int),
            ),
        decreases lines@.len() - k,
    {
        assert(lines@[k as int]@ == released[k as int]);
        let content = lines[k].content.clone();
        let ghost so_far = requests_view(sent@);
        sent.push(SendChatEvent { entity: session.entity, content });
        proof {
            let request = ChatRequest { entity: before.entity, content: released[k as int].content };
            assert(released.take(k + 1) =~= released.take(k as int).push(released[k as int]));
            assert(requests_of(before.entity, released.take(k + 1)) =~= requests_of(
                before.entity,
                released.take(k as int),
            ).push(request));
            assert(requests_view(sent@) =~= so_far.push(request));
        }
        k += 1;
    }
    assert(released.take(k as int) =~= released);
}

impl AvoidKickPlugin {
    /// No identity has two sessions, every credit is within its bound, and
    /// every waiting line is legal.
    pub open spec fn wf(&self) -> bool {
        self@.wf()
    }

    /// A registry without sessions.
    pub fn new() -> (plugin: Self)
        ensures
            plugin@.sessions == Seq::<Session>::empty(),
            plugin.wf(),
    {
        let plugin = AvoidKickPlugin { sessions: Vec::new() };
        assert(plugin@.sessions =~= Seq::<Session>::empty());
        plugin
    }

    fn find(&self, entity: u64) -> (found: Option<usize>)
        ensures
            match found {
                Some(i) => self@.position(entity) == Some(i as int) && i < self.sessions@.len(),
                None => self@.position(entity) is None,
            },
    {
        let mut i: usize = 0;
        while i < self.sessions.len()
            invariant
                i <= self.sessions@.len(),
                forall|j: int| 0 <= j < i ==> self@.entities()[j] != entity,
            decreases self.sessions@.len() - i,
        {
            if self.sessions[i].entity == entity {
                proof {
                    assert(self@.entities()[i as int] == entity);
                    self@.entities().index_of_first_ensures(entity);
                }
                return Some(i);
            }
            i += 1;
        }
        proof {
            self@.entities().index_of_first_ensures(entity);
        }
        None
    }

    /// Whether `entity` has a session.
    pub fn has_session(&self, entity: u64) -> (known: bool)
        ensures
            known == self@.tracks(entity),
    {
        self.find(entity).is_some()
    }

    /// The throttle of `entity`, if it has a session.
    pub fn get(&self, entity: u64) -> (state: Option<&AvoidChatKick>)
        ensures
            match state {
                Some(s) => self@.tracks(entity) && s@ == self@.throttle_of(entity),
                None => !self@.tracks(entity),
            },
    {
        match self.find(entity) {
            Some(i) => Some(&self.sessions[i].state),
            None => None,
        }
    }

    /// Takes in a request at time `now`: its message joins the queue of its
    /// identity. An identity without a session gets one, with this message as
    /// its only line and no credit used.
    pub fn send_chat_listener(&mut self, event: SendChatEvent, now: u64)
        requires
            old(self).wf(),
        ensures
            final(self)@ == old(self)@.enqueue(
                event@.entity,
                PendingLine { content: event@.content, enqueued_at: now },
            ),
            final(self).wf(),
    {
        proof {
            use_type_invariant(&event);
        }
        let entity = event.entity;
        let line = PendingOutboundLine { content: event.content, enqueued_at: now };
        let ghost before = self@;
        let ghost after = before.enqueue(entity, line@);
        match self.find(entity) {
            Some(i) => {
                proof {
                    before.entities().index_of_first_ensures(entity);
                    assert(before.entities()[i as int] == before.sessions[i as int].entity);
                }
                self.sessions[i].state.enqueue(line);
                assert(self@.sessions =~= after.sessions);
                assert forall|a: int| 0 <= a < after.sessions.len() implies (
                #[trigger] after.sessions[a]).wf() by {
                    if a != i {
                        assert(after.sessions[a] == before.sessions[a]);
                    } else {
                        assert(before.sessions[a].wf());
                    }
                }
                assert forall|a: int, b: int| 0 <= a < b < after.sessions.len() implies after.sessions[a].entity
                    != after.sessions[b].entity by {
                    before.entities().index_of_first_ensures(entity);
                    assert(before.entities()[i as int] == before.sessions[i as int].entity);
                    assert(after.sessions[a].entity == before.sessions[a].entity);
                    assert(after.sessions[b].entity == before.sessions[b].entity);
                }
            },
            None => {
                let mut state = AvoidChatKick::new();
                state.enqueue(line);
                self.sessions.push(ThrottleSession { entity, state });
                assert(self@.sessions =~= after.sessions);
                assert forall|a: int| 0 <= a < after.sessions.len() implies (
                #[trigger] after.sessions[a]).wf() by {
                    if a < before.sessions.len() {
                        assert(after.sessions[a] == before.sessions[a]);
                    }
                }
                assert forall|a: int, b: int| 0 <= a < b < after.sessions.len() implies after.sessions[a].entity
                    != after.sessions[b].entity by {
                    before.entities().index_of_first_ensures(entity);
                    assert(before.entities()[a] == before.sessions[a].entity);
                    if b < before.sessions.len() {
                        assert(after.sessions[b] == before.sessions[b]);
                    }
                }
            },
        }
    }

    /// Runs one tick of the throttle of `entity` and returns the requests it
    /// releases, oldest first. Nothing happens for an identity without a
    /// session.
    pub fn tick(&mut self, entity: u64) -> (sent: Vec<SendChatEvent>)
        requires
            old(self).wf(),
        ensures
            final(self)@ == old(self)@.tick(entity),
            requests_view(sent@) == old(self)@.drained(entity),
            final(self).wf(),
    {
        let mut sent: Vec<SendChatEvent> = Vec::new();
        let ghost before = self@;
        assert(requests_view(sent@) =~= Seq::<ChatRequest>::empty());
        match self.find(entity) {
            Some(i) => {
                assert(before.sessions[i as int].wf());
                tick_session(&mut self.sessions[i], &mut sent);
                let ghost after = before.tick(entity);
                assert(self@.sessions =~= after.sessions);
                assert(requests_view(sent@) =~= before.drained(entity));
                assert forall|a: int| 0 <= a < after.sessions.len() implies (
                #[trigger] after.sessions[a]).wf() by {
                    if a != i {
                        assert(after.sessions[a] == before.sessions[a]);
                    }
                }
                assert forall|a: int, b: int| 0 <= a < b < after.sessions.len() implies after.sessions[a].entity
                    != after.sessions[b].entity by {
                    assert(after.sessions[a].entity == before.sessions[a].entity);
                    assert(after.sessions[b].entity == before.sessions[b].entity);
                }
            },
            None => {},
        }
        sent
    }

    /// Runs one tick of every throttle, in the order in which the identities
    /// were first seen, and returns the requests released, each identity's
    /// oldest first.
    pub fn drain_chat_message_queue(&mut self) -> (sent: Vec<SendChatEvent>)
        requires
            old(self).wf(),
        ensures
            final(self)@ == old(self)@.tick_all(),
            requests_view(sent@) == drained_all(old(self)@.sessions),
            final(self).wf(),
    {
        let mut sent: Vec<SendChatEvent> = Vec::new();
        let ghost before = self@;
        let ghost after = before.tick_all();
        assert(requests_view(sent@) =~= drained_all(before.sessions.take(0)));
        let mut i: usize = 0;
        while i < self.sessions.len()
            invariant
                i <= self.sessions@.len(),
                before.wf(),
                after == before.tick_all(),
                self@.sessions.len() == before.sessions.len(),
                forall|a: int| 0 <= a < i ==> self@.sessions[a] == after.sessions[a],
                forall|a: int| 0 <= a < i ==> (#[trigger] self@.sessions[a]).wf(),
                forall|a: int| i <= a < before.sessions.len() ==> self@.sessions[a] == before.sessions[a],
                requests_view(sent@) == drained_all(before.sessions.take(i as int)),
            decreases self.sessions@.len() - i,
        {
            let ghost current = self@;
            assert(current.sessions[i as int] == before.sessions[i as int]);
            assert(before.sessions[i as int].wf());
            tick_session(&mut self.sessions[i], &mut sent);
            proof {
                assert(self@.sessions =~= current.sessions.update(
                    i as int,
                    before.sessions[i as int].tick(),
                ));
                assert(before.sessions.take(i + 1).drop_last() =~= before.sessions.take(i as int));
                assert(before.sessions.take(i + 1).last() == before.sessions[i as int]);
            }
            i += 1;
        }
        proof {
            assert(before.sessions.take(i as int) =~= before.sessions);
            assert(self@.sessions =~= after.sessions);
            assert forall|a: int, b: int| 0 <= a < b < after.sessions.len() implies after.sessions[a].entity
                != after.sessions[b].entity by {
                assert(after.sessions[a].entity == before.sessions[a].entity);
                assert(after.sessions[b].entity == before.sessions[b].entity);
            }
        }
        sent
    }

    /// Forgets the session of `entity`, with the lines that wait in it.
    pub fn remove(&mut self, entity: u64) -> (state: Option<AvoidChatKick>)
        requires
            old(self).wf(),
        ensures
            final(self)@ == old(self)@.remove(entity),
            match state {
                Some(s) => old(self)@.tracks(entity) && s@ == old(self)@.throttle_of(entity),
                None => !old(self)@.tracks(entity),
            },
            final(self).wf(),
            !final(self)@.tracks(entity),
    {
        let ghost before = self@;
        match self.find(entity) {
            Some(i) => {
                let session = self.sessions.remove(i);
                proof {
                    let after = before.remove(entity);
                    assert(self@.sessions =~= after.sessions);
                    assert forall|a: int| 0 <= a < after.sessions.len() implies (
                    #[trigger] after.sessions[a]).wf() by {
                        let a0 = if a < i { a } else { a + 1 };
                        assert(after.sessions[a] == before.sessions[a0]);
                    }
                    assert forall|a: int, b: int|
                        0 <= a < b < after.sessions.len() implies after.sessions[a].entity
                        != after.sessions[b].entity by {
                        let a0 = if a < i { a } else { a + 1 };
                        let b0 = if b < i { b } else { b + 1 };
                        assert(after.sessions[a] == before.sessions[a0]);
                        assert(after.sessions[b] == before.sessions[b0]);
                    }
                    before.entities().index_of_first_ensures(entity);
                    after.entities().index_of_first_ensures(entity);
                    if after.entities().contains(entity) {
                        let a = choose|a: int|
                            0 <= a < after.entities().len() && after.entities()[a] == entity;
                        let a0 = if a < i { a } else { a + 1 };
                        assert(after.sessions[a] == before.sessions[a0]);
                        assert(before.sessions[a0].entity == before.sessions[i as int].entity);
                    }
                }
                Some(session.state)
            },
            None => None,
        }
    }
}

} // verus!
