//! What the server does with each message that arrives on a connection:
//! until its player joins it waits for a spawn request; once joined it
//! reads nothing more.
use crate::server::packets::{IncomingPackets, SpawnPacket};
use vstd::prelude::*;

verus! {

/// A message read from a client's connection.
#[derive(Debug, Clone, PartialEq)]
pub enum ConnEvent {
    /// A binary message that decoded to a packet.
    Packet(IncomingPackets),
    /// A binary message that did not decode.
    Undecodable,
    /// A text message.
    Text(String),
    /// Any other kind of message, or a read error.
    Other,
}

/// What to do with a message.
#[derive(Debug, Clone, PartialEq)]
pub enum ConnAction {
    /// Add a player of this name for the connection, and stop reading.
    Join(String),
    /// Report the text, and go on reading.
    Log(String),
    /// Go on reading.
    Ignore,
}

/// The decision for one message: a spawn request makes the sender join,
/// a text message is reported, and everything else is passed over.
pub fn handle_message(event: ConnEvent) -> (a: ConnAction)
    ensures
        a == (match event {
            ConnEvent::Packet(IncomingPackets::Spawn(SpawnPacket { name })) => ConnAction::Join(name),
            ConnEvent::Text(t) => ConnAction::Log(t),
            _ => ConnAction::Ignore,
        }),
{
    match event {
        ConnEvent::Packet(IncomingPackets::Spawn(SpawnPacket { name })) => ConnAction::Join(name),
        ConnEvent::Text(t) => ConnAction::Log(t),
        _ => ConnAction::Ignore,
    }
}

/// Where a connection stands.
#[derive(Debug, Clone, Copy, PartialEq, Eq)]
pub enum ConnState {
    /// No spawn request has arrived yet.
    Waiting,
    /// The connection's player has joined; nothing more is read.
    Joined,
}

/// The state and action that follow `event` in state `s`.
pub open spec fn spec_step(s: ConnState, event: ConnEvent) -> (ConnState, ConnAction) {
    match s {
        ConnState::Joined => (ConnState::Joined, ConnAction::Ignore),
        ConnState::Waiting => match event {
            ConnEvent::Packet(IncomingPackets::Spawn(SpawnPacket { name })) => (
                ConnState::Joined,
                ConnAction::Join(name),
            ),
            ConnEvent::Text(t) => (ConnState::Waiting, ConnAction::Log(t)),
            _ => (ConnState::Waiting, ConnAction::Ignore),
        },
    }
}

/// One message on a connection: while waiting, the decision of
/// `handle_message`, and a join moves the connection to `Joined`; once
/// joined, every message is ignored.
pub fn step(s: ConnState, event: ConnEvent) -> (r: (ConnState, ConnAction))
    ensures
        r == spec_step(s, event),
        r.1 is Join ==> s == ConnState::Waiting && r.0 == ConnState::Joined,
        s == ConnState::Joined ==> r == (ConnState::Joined, ConnAction::Ignore),
        event matches ConnEvent::Packet(IncomingPackets::Spawn(p)) ==> (s == ConnState::Waiting ==> r == (
            ConnState::Joined,
            ConnAction::Join(p.name),
        )),
        event matches ConnEvent::Text(t) ==> (s == ConnState::Waiting ==> r == (
            ConnState::Waiting,
            ConnAction::Log(t),
        )),
        s == ConnState::Waiting && !(event is Text) && !is_spawn(event) ==> r == (
            ConnState::Waiting,
            ConnAction::Ignore,
        ),
{
    match s {
        ConnState::Joined => (ConnState::Joined, ConnAction::Ignore),
        ConnState::Waiting => {
            let a = handle_message(event);
            match a {
                ConnAction::Join(name) => (ConnState::Joined, ConnAction::Join(name)),
                other => (ConnState::Waiting, other),
            }
        },
    }
}

/// While waiting, a spawn request joins under exactly its name, whatever
/// the name; a text message is reported as it is; anything else is ignored
/// and the connection keeps waiting. Once joined, everything is ignored.
pub proof fn lemma_step_decisions(s: ConnState, event: ConnEvent, name: String, text: String)
    ensures
        spec_step(ConnState::Waiting, ConnEvent::Packet(IncomingPackets::Spawn(SpawnPacket { name })))
            == (ConnState::Joined, ConnAction::Join(name)),
        spec_step(ConnState::Waiting, ConnEvent::Text(text)) == (ConnState::Waiting, ConnAction::Log(text)),
        !is_spawn(event) && !(event is Text) ==> spec_step(ConnState::Waiting, event) == (
            ConnState::Waiting,
            ConnAction::Ignore,
        ),
        spec_step(ConnState::Joined, event) == (ConnState::Joined, ConnAction::Ignore),
{
}

/// The state after each of `events` in turn, starting from `s`.
pub open spec fn final_state(s: ConnState, events: Seq<ConnEvent>) -> ConnState
    decreases events.len(),
{
    if events.len() == 0 {
        s
    } else {
        spec_step(final_state(s, events.drop_last()), events.last()).0
    }
}

/// The actions taken for each of `events` in turn, starting from `s`.
pub open spec fn actions(s: ConnState, events: Seq<ConnEvent>) -> Seq<ConnAction>
    decreases events.len(),
{
    if events.len() == 0 {
        Seq::empty()
    } else {
        actions(s, events.drop_last()).push(spec_step(final_state(s, events.drop_last()), events.last()).1)
    }
}

/// `e` is a spawn request.
pub open spec fn is_spawn(e: ConnEvent) -> bool {
    e matches ConnEvent::Packet(IncomingPackets::Spawn(_))
}

/// Over any run of messages from `Waiting`, the connection joins at most
/// once, exactly at the first spawn request and under its name; before it
/// every action is what `handle_message` decides, and after it every
/// message is ignored.
pub proof fn lemma_joins_at_most_once(events: Seq<ConnEvent>)
    ensures
        actions(ConnState::Waiting, events).len() == events.len(),
        forall|i: int|
            0 <= i < events.len() && (forall|j: int| 0 <= j < i ==> !is_spawn(#[trigger] events[j])) ==> {
                &&& final_state(ConnState::Waiting, events.take(i)) == ConnState::Waiting
                &&& (#[trigger] actions(ConnState::Waiting, events)[i]) == spec_step(ConnState::Waiting, events[i]).1
            },
        forall|i: int, j: int|
            0 <= i < j < events.len() && is_spawn(#[trigger] events[i]) ==> (#[trigger] actions(
                ConnState::Waiting,
                events,
            )[j]) == ConnAction::Ignore,
        forall|i: int, j: int|
            0 <= i < j < events.len() ==> !((#[trigger] actions(ConnState::Waiting, events)[i]) is Join
                && (#[trigger] actions(ConnState::Waiting, events)[j]) is Join),
    decreases events.len(),
{
    if events.len() > 0 {
        let prefix = events.drop_last();
        let n = events.len() - 1;
        lemma_joins_at_most_once(prefix);
        lemma_state_prefix(events);
        let acts = actions(ConnState::Waiting, events);
        let pacts = actions(ConnState::Waiting, prefix);
        assert forall|i: int| 0 <= i < n implies acts[i] == pacts[i] by {}
        assert forall|i: int|
            0 <= i < events.len() && (forall|j: int| 0 <= j < i ==> !is_spawn(#[trigger] events[j])) implies {
                &&& final_state(ConnState::Waiting, events.take(i)) == ConnState::Waiting
                &&& (#[trigger] actions(ConnState::Waiting, events)[i]) == spec_step(ConnState::Waiting, events[i]).1
            } by {
            lemma_waiting_until_spawn(events, i);
            if i < n {
                assert(prefix[i] == events[i]);
                assert forall|j: int| 0 <= j < i implies !is_spawn(#[trigger] prefix[j]) by {
                    assert(prefix[j] == events[j]);
                }
            } else {
                assert(events.take(i) == prefix);
            }
        }
        assert forall|i: int, j: int|
            0 <= i < j < events.len() && is_spawn(#[trigger] events[i]) implies (#[trigger] actions(
                ConnState::Waiting,
                events,
            )[j]) == ConnAction::Ignore by {
            lemma_joined_after_spawn(events, i);
            if j < n {
                assert(prefix[i] == events[i]);
            } else {
                assert(events.take(j) == prefix);
            }
        }
        assert forall|i: int, j: int|
            0 <= i < j < events.len() implies !((#[trigger] actions(ConnState::Waiting, events)[i]) is Join
                && (#[trigger] actions(ConnState::Waiting, events)[j]) is Join) by {
            if j < n {
            } else if acts[i] is Join {
                lemma_join_is_spawn(prefix, i);
                lemma_joined_after_spawn(events, i);
                assert(prefix[i] == events[i]);
                assert(events.take(j) == prefix);
            }
        }
    }
}

/// The state before message `i` is the state after the first `i` messages.
proof fn lemma_state_prefix(events: Seq<ConnEvent>)
    ensures
        actions(ConnState::Waiting, events).len() == events.len(),
        forall|i: int|
            0 <= i < events.len() ==> #[trigger] actions(ConnState::Waiting, events)[i] == spec_step(
                final_state(ConnState::Waiting, events.take(i)),
                events[i],
            ).1,
    decreases events.len(),
{
    if events.len() > 0 {
        let prefix = events.drop_last();
        lemma_state_prefix(prefix);
        assert forall|i: int| 0 <= i < events.len() implies #[trigger] actions(ConnState::Waiting, events)[i]
            == spec_step(final_state(ConnState::Waiting, events.take(i)), events[i]).1 by {
            if i < prefix.len() {
                assert(prefix.take(i) == events.take(i));
                assert(prefix[i] == events[i]);
            } else {
                assert(events.take(i) == prefix);
            }
        }
    }
}

/// With no spawn request among the first `i` messages the connection is
/// still waiting.
proof fn lemma_waiting_until_spawn(events: Seq<ConnEvent>, i: int)
    requires
        0 <= i <= events.len(),
        forall|j: int| 0 <= j < i ==> !is_spawn(#[trigger] events[j]),
    ensures
        final_state(ConnState::Waiting, events.take(i)) == ConnState::Waiting,
    decreases i,
{
    if i > 0 {
        lemma_waiting_until_spawn(events, i - 1);
        assert(events.take(i).drop_last() == events.take(i - 1));
        assert(events.take(i).last() == events[i - 1]);
        assert(!is_spawn(events[i - 1]));
    }
}

/// After a spawn request at `i`, the connection has joined.
proof fn lemma_joined_after_spawn(events: Seq<ConnEvent>, i: int)
    requires
        0 <= i < events.len(),
        is_spawn(events[i]),
    ensures
        forall|k: int| i < k <= events.len() ==> #[trigger] final_state(ConnState::Waiting, events.take(k))
            == ConnState::Joined,
{
    assert forall|k: int| i < k <= events.len() implies #[trigger] final_state(ConnState::Waiting, events.take(k))
        == ConnState::Joined by {
        lemma_joined_from(events, i, k);
    }
}

proof fn lemma_joined_from(events: Seq<ConnEvent>, i: int, k: int)
    requires
        0 <= i < k <= events.len(),
        is_spawn(events[i]),
    ensures
        final_state(ConnState::Waiting, events.take(k)) == ConnState::Joined,
    decreases k,
{
    assert(events.take(k).drop_last() == events.take(k - 1));
    assert(events.take(k).last() == events[k - 1]);
    if k - 1 > i {
        lemma_joined_from(events, i, k - 1);
    }
}

/// A join is taken only for a spawn request.
proof fn lemma_join_is_spawn(events: Seq<ConnEvent>, i: int)
    requires
        0 <= i < events.len(),
        actions(ConnState::Waiting, events)[i] is Join,
    ensures
        is_spawn(events[i]),
{
    lemma_state_prefix(events);
}

} // verus!
