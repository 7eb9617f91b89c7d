//! The WebSocket session: a client subscribes to and unsubscribes from
//! topics, and pings; every text frame is answered.

use vstd::prelude::*;

use crate::text::str_eq;
use vstd::string::*;

verus! {

broadcast use vstd::seq_lib::group_seq_properties;

/// Query parameters of the WebSocket upgrade request.
#[derive(Debug, Clone)]
pub struct WsQuery {
    /// An access token, when the client sends one.
    pub token: Option<String>,
}

/// A message sent by a client.
#[derive(Debug, Clone, PartialEq, Eq)]
pub enum WsClientMessage {
    Subscribe { topic: String },
    Unsubscribe { topic: String },
    Ping,
}

/// A message sent to a client.
#[derive(Debug)]
pub enum WsServerMessage {
    Subscribed { topic: String },
    Unsubscribed { topic: String },
    Pong,
    Error { message: String },
    Telemetry { topic: String, data: serde_json::Value },
}

/// What arrived on the socket.
#[derive(Debug)]
pub enum WsEvent {
    /// A text frame, decoded into a client message or, when it is not one,
    /// the text of the decoding error.
    Text(Result<WsClientMessage, String>),
    /// The client closed the connection.
    Close,
    /// Receiving failed.
    ReceiveError,
    /// Any other frame (binary, ping, pong).
    Other,
}

/// What the session does next.
#[derive(Debug)]
pub enum WsAction {
    /// Send this message, then go on.
    Reply(WsServerMessage),
    /// End the session.
    Stop,
    /// Wait for the next frame.
    Continue,
}

/// The subscriptions of one WebSocket client.
///
/// The topics are held in a `Vec` that never holds a topic twice: vstd
/// specifies `HashSet` lookups only for keys shown to obey its key model,
/// and `String` is not among them.
pub struct WsSession {
    topics: Vec<String>,
}

/// How the session answers `event` when its subscriptions were `before`:
/// the subscriptions `after`, and the `action` taken.
pub open spec fn session_step(
    before: Set<Seq<char>>,
    event: WsEvent,
    after: Set<Seq<char>>,
    action: WsAction,
) -> bool {
    match event {
        WsEvent::Text(Ok(WsClientMessage::Subscribe { topic })) => {
            &&& after == before.insert(topic@)
            &&& action matches WsAction::Reply(WsServerMessage::Subscribed { topic: t })
            &&& t@ == topic@
        },
        WsEvent::Text(Ok(WsClientMessage::Unsubscribe { topic })) => {
            &&& after == before.remove(topic@)
            &&& action matches WsAction::Reply(WsServerMessage::Unsubscribed { topic: t })
            &&& t@ == topic@
        },
        WsEvent::Text(Ok(WsClientMessage::Ping)) => {
            &&& after == before
            &&& action matches WsAction::Reply(WsServerMessage::Pong)
        },
        WsEvent::Text(Err(detail)) => {
            &&& after == before
            &&& action matches WsAction::Reply(WsServerMessage::Error { message })
            &&& message@ == "Invalid message: "@ + detail@
        },
        WsEvent::Close => after == before && action is Stop,
        WsEvent::ReceiveError => after == before && action is Stop,
        WsEvent::Other => after == before && action is Continue,
    }
}

impl WsSession {
    /// The topics as text, in the order they were subscribed.
    closed spec fn topic_texts(&self) -> Seq<Seq<char>> {
        self.topics@.map_values(|s: String| s@)
    }

    /// The topics the client is subscribed to.
    pub closed spec fn subscriptions(&self) -> Set<Seq<char>> {
        self.topic_texts().to_set()
    }

    /// Each topic is held once.
    #[verifier::type_invariant]
    closed spec fn topics_distinct(&self) -> bool {
        self.topic_texts().no_duplicates()
    }

    /// A session with no subscriptions.
    pub fn new() -> (s: WsSession)
        ensures
            s.subscriptions() == Set::<Seq<char>>::empty(),
    {
        let s = WsSession { topics: Vec::new() };
        assert(s.topic_texts().to_set() =~= Set::<Seq<char>>::empty());
        s
    }

    /// Where `topic` is held, if the client is subscribed to it.
    fn position(&self, topic: &str) -> (r: Option<usize>)
        ensures
            r matches Some(i) ==> i < self.topics@.len() && self.topics@[i as int]@ == topic@,
            r is None ==> !self.topic_texts().contains(topic@),
    {
        let mut i: usize = 0;
        while i < self.topics.len()
            invariant
                i <= self.topics@.len(),
                forall|k: int| 0 <= k < i ==> self.topics@[k]@ != topic@,
            decreases self.topics@.len() - i,
        {
            if str_eq(self.topics[i].as_str(), topic) {
                return Some(i);
            }
            i = i + 1;
        }
        proof {
            if self.topic_texts().contains(topic@) {
                let k = choose|k: int| 0 <= k < self.topic_texts().len() && self.topic_texts()[k] == topic@;
                assert(self.topics@[k]@ == topic@);
            }
        }
        None
    }

    /// Whether the client is subscribed to `topic`.
    pub fn is_subscribed(&self, topic: &str) -> (r: bool)
        ensures
            r == self.subscriptions().contains(topic@),
    {
        let p = self.position(topic);
        proof {
            if let Some(i) = p {
                assert(self.topic_texts()[i as int] == topic@);
            }
        }
        p.is_some()
    }

    /// The number of topics the client is subscribed to.
    pub fn subscription_count(&self) -> (n: usize)
        ensures
            n == self.subscriptions().len(),
    {
        proof {
            use_type_invariant(self);
            self.topic_texts().unique_seq_to_set();
        }
        self.topics.len()
    }

    /// Subscribes to `topic` (a topic already subscribed stays once).
    fn subscribe(&mut self, topic: &str)
        ensures
            final(self).subscriptions() == old(self).subscriptions().insert(topic@),
    {
        proof {
            use_type_invariant(&*self);
        }
        match self.position(topic) {
            Some(i) => {
                proof {
                    assert(self.topic_texts()[i as int] == topic@);
                    assert(self.subscriptions().insert(topic@) =~= self.subscriptions());
                }
            },
            None => {
                let ghost before = self.topic_texts();
                let mut topics: Vec<String> = Vec::new();
                std::mem::swap(&mut topics, &mut self.topics);
                topics.push(topic.to_owned());
                proof {
                    let after = topics@.map_values(|s: String| s@);
                    assert(after =~= before.push(topic@));
                    assert(after.no_duplicates()) by {
                        assert forall|a: int, b: int|
                            0 <= a < after.len() && 0 <= b < after.len() && a != b implies after[a]
                            != after[b] by {
                            if a < before.len() && b < before.len() {
                                assert(after[a] == before[a] && after[b] == before[b]);
                            } else if a < before.len() {
                                assert(before.contains(after[a]));
                            } else {
                                assert(before.contains(after[b]));
                            }
                        }
                    }
                    before.lemma_push_to_set_commute(topic@);
                }
                self.topics = topics;
            },
        }
    }

    /// Unsubscribes from `topic` (a topic not subscribed is ignored).
    fn unsubscribe(&mut self, topic: &str)
        ensures
            final(self).subscriptions() == old(self).subscriptions().remove(topic@),
    {
        proof {
            use_type_invariant(&*self);
        }
        match self.position(topic) {
            Some(i) => {
                let ghost before = self.topic_texts();
                let mut topics: Vec<String> = Vec::new();
                std::mem::swap(&mut topics, &mut self.topics);
                topics.remove(i);
                proof {
                    let after = topics@.map_values(|s: String| s@);
                    assert(after =~= before.remove(i as int));
                    assert(after.no_duplicates()) by {
                        assert forall|a: int, b: int|
                            0 <= a < after.len() && 0 <= b < after.len() && a != b implies after[a]
                            != after[b] by {
                            let a0 = if a < i { a } else { a + 1 };
                            let b0 = if b < i { b } else { b + 1 };
                            assert(after[a] == before[a0] && after[b] == before[b0]);
                        }
                    }
                    assert(after.to_set() =~= before.to_set().remove(topic@)) by {
                        assert forall|x: Seq<char>| after.to_set().contains(x) <==> before.to_set().remove(
                            topic@,
                        ).contains(x) by {
                            assert(before[i as int] == topic@);
                            assert(before.no_duplicates());
                            if after.contains(x) {
                                let k = choose|k: int| 0 <= k < after.len() && after[k] == x;
                                let k0 = if k < i { k } else { k + 1 };
                                assert(before[k0] == x);
                                assert(k0 != i);
                                assert(x != topic@);
                                assert(before.contains(x));
                            }
                            if before.contains(x) && x != topic@ {
                                let k = choose|k: int| 0 <= k < before.len() && before[k] == x;
                                assert(k != i);
                                let k1 = if k < i { k } else { k - 1 };
                                assert(after[k1] == x);
                                assert(after.contains(x));
                            }
                        }
                    }
                }
                self.topics = topics;
            },
            None => {
                proof {
                    assert(self.subscriptions().remove(topic@) =~= self.subscriptions());
                }
            },
        }
    }

    /// Answers one event of the socket.
    pub fn handle(&mut self, event: WsEvent) -> (a: WsAction)
        ensures
            session_step(old(self).subscriptions(), event, final(self).subscriptions(), a),
    {
        match event {
            WsEvent::Text(Ok(WsClientMessage::Subscribe { topic })) => {
                self.subscribe(topic.as_str());
                WsAction::Reply(WsServerMessage::Subscribed { topic })
            },
            WsEvent::Text(Ok(WsClientMessage::Unsubscribe { topic })) => {
                self.unsubscribe(topic.as_str());
                WsAction::Reply(WsServerMessage::Unsubscribed { topic })
            },
            WsEvent::Text(Ok(WsClientMessage::Ping)) => WsAction::Reply(WsServerMessage::Pong),
            WsEvent::Text(Err(detail)) => {
                let mut message = String::from_str("Invalid message: ");
                message.append(detail.as_str());
                WsAction::Reply(WsServerMessage::Error { message })
            },
            WsEvent::Close => WsAction::Stop,
            WsEvent::ReceiveError => WsAction::Stop,
            WsEvent::Other => WsAction::Continue,
        }
    }
}

/// Subscribing to a topic twice leaves the same subscriptions as
/// subscribing once.
pub proof fn lemma_subscribe_idempotent(
    topic: Seq<char>,
    s0: Set<Seq<char>>,
    e1: WsEvent,
    s1: Set<Seq<char>>,
    a1: WsAction,
    e2: WsEvent,
    s2: Set<Seq<char>>,
    a2: WsAction,
)
    requires
        e1 matches WsEvent::Text(Ok(WsClientMessage::Subscribe { topic: t1 })) && t1@ == topic,
        e2 matches WsEvent::Text(Ok(WsClientMessage::Subscribe { topic: t2 })) && t2@ == topic,
        session_step(s0, e1, s1, a1),
        session_step(s1, e2, s2, a2),
    ensures
        s2 == s1,
{
    assert(s2 =~= s1);
}

/// Unsubscribing from a topic the client had just subscribed to, and had not
/// been subscribed to before, restores the earlier subscriptions.
pub proof fn lemma_unsubscribe_undoes_subscribe(
    topic: Seq<char>,
    s0: Set<Seq<char>>,
    e1: WsEvent,
    s1: Set<Seq<char>>,
    a1: WsAction,
    e2: WsEvent,
    s2: Set<Seq<char>>,
    a2: WsAction,
)
    requires
        e1 matches WsEvent::Text(Ok(WsClientMessage::Subscribe { topic: t1 })) && t1@ == topic,
        e2 matches WsEvent::Text(Ok(WsClientMessage::Unsubscribe { topic: t2 })) && t2@ == topic,
        !s0.contains(topic),
        session_step(s0, e1, s1, a1),
        session_step(s1, e2, s2, a2),
    ensures
        s2 == s0,
{
    assert(s2 =~= s0);
}

/// After unsubscribing from a topic the client is no longer subscribed to
/// it, whatever happened before.
pub proof fn lemma_unsubscribed_topic_absent(
    topic: Seq<char>,
    s0: Set<Seq<char>>,
    e: WsEvent,
    s1: Set<Seq<char>>,
    a: WsAction,
)
    requires
        e matches WsEvent::Text(Ok(WsClientMessage::Unsubscribe { topic: t })) && t@ == topic,
        session_step(s0, e, s1, a),
    ensures
        !s1.contains(topic),
{
}

/// After a subscribe to `topic` the client is subscribed to it, keeps every
/// earlier subscription and gains no other, whatever it held before; the
/// answer confirms the topic.
pub proof fn lemma_subscribed_topic_present(
    topic: Seq<char>,
    s0: Set<Seq<char>>,
    e: WsEvent,
    s1: Set<Seq<char>>,
    a: WsAction,
)
    requires
        e matches WsEvent::Text(Ok(WsClientMessage::Subscribe { topic: t })) && t@ == topic,
        session_step(s0, e, s1, a),
    ensures
        s1.contains(topic),
        forall|x: Seq<char>| s0.contains(x) ==> s1.contains(x),
        forall|x: Seq<char>| s1.contains(x) ==> x == topic || s0.contains(x),
        a matches WsAction::Reply(WsServerMessage::Subscribed { topic: t }) && t@ == topic,
{
}

/// Unsubscribing from `topic` keeps every other subscription, and the
/// answer confirms the topic.
pub proof fn lemma_unsubscribe_keeps_others(
    topic: Seq<char>,
    s0: Set<Seq<char>>,
    e: WsEvent,
    s1: Set<Seq<char>>,
    a: WsAction,
)
    requires
        e matches WsEvent::Text(Ok(WsClientMessage::Unsubscribe { topic: t })) && t@ == topic,
        session_step(s0, e, s1, a),
    ensures
        forall|x: Seq<char>| x != topic ==> (s1.contains(x) <==> s0.contains(x)),
        a matches WsAction::Reply(WsServerMessage::Unsubscribed { topic: t }) && t@ == topic,
{
}

/// A ping leaves the subscriptions as they are and is answered with a pong;
/// a closed or failed connection ends the session.
pub proof fn lemma_ping_and_close(
    s0: Set<Seq<char>>,
    e: WsEvent,
    s1: Set<Seq<char>>,
    a: WsAction,
)
    requires
        session_step(s0, e, s1, a),
    ensures
        e matches WsEvent::Text(Ok(WsClientMessage::Ping)) ==> s1 == s0 && a matches WsAction::Reply(
            WsServerMessage::Pong,
        ),
        (e is Close || e is ReceiveError) ==> s1 == s0 && a is Stop,
{
}

} // verus!
