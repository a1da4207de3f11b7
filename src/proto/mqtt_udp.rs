//! The control side of the MQTT-and-UDP transport.
//!
//! Commands arrive as MQTT publications whose payload is a JSON object with
//! a `command` member; audio travels over UDP. When receiving from the broker
//! fails, the client is dropped, the reconnect task is signalled, and no
//! command is delivered until that task has published a fresh client. A
//! keep-alive timer asks for pings in between.
use vstd::prelude::*;
use crate::proto::{find_string, json_object_members, parse_object, string_member, is_text};
use crate::robot::Command;

verus! {

/// Whether the control link has a usable client.
#[derive(Clone, Copy, Debug, PartialEq, Eq, Structural)]
pub enum LinkPhase {
    Connected,
    /// The client was dropped after a failure; waiting for a fresh one.
    Reconnecting,
}

/// What happened on the control link.
#[derive(Clone, Copy, Debug, PartialEq, Eq, Structural)]
pub enum LinkEvent {
    /// A publication arrived; its command, when the payload holds one.
    Received(Option<Command>),
    /// Receiving from the broker failed.
    ReceiveFailed,
    /// The keep-alive timer asks for a ping.
    PingDue,
    /// The reconnect task has published a fresh client.
    ClientReady,
}

/// What the receiving side does next.
#[derive(Clone, Copy, Debug, PartialEq, Eq, Structural)]
pub enum LinkAction {
    /// Return the command to the caller.
    Deliver(Command),
    /// Keep receiving.
    Receive,
    /// Send a ping to the broker, then keep receiving.
    SendPing,
    /// Signal the reconnect task and drop the current client.
    Reconnect,
    /// Wait for the fresh client.
    AwaitClient,
}

/// One step of the receiving side.
pub open spec fn link_step(p: LinkPhase, e: LinkEvent) -> (LinkPhase, LinkAction) {
    match p {
        LinkPhase::Connected => match e {
            LinkEvent::Received(Some(c)) => (LinkPhase::Connected, LinkAction::Deliver(c)),
            LinkEvent::Received(None) => (LinkPhase::Connected, LinkAction::Receive),
            LinkEvent::ReceiveFailed => (LinkPhase::Reconnecting, LinkAction::Reconnect),
            LinkEvent::PingDue => (LinkPhase::Connected, LinkAction::SendPing),
            LinkEvent::ClientReady => (LinkPhase::Connected, LinkAction::Receive),
        },
        LinkPhase::Reconnecting => match e {
            LinkEvent::ClientReady => (LinkPhase::Connected, LinkAction::Receive),
            _ => (LinkPhase::Reconnecting, LinkAction::AwaitClient),
        },
    }
}

/// The phase after a run of events.
pub open spec fn phase_after(p: LinkPhase, events: Seq<LinkEvent>) -> LinkPhase
    decreases events.len(),
{
    if events.len() == 0 {
        p
    } else {
        link_step(phase_after(p, events.drop_last()), events.last()).0
    }
}

/// The receiving side of the control link.
pub struct CommandLink {
    phase: LinkPhase,
}

impl CommandLink {
    pub closed spec fn phase(&self) -> LinkPhase {
        self.phase
    }

    /// A link whose first client has been published.
    pub fn new() -> (r: Self)
        ensures
            r.phase() == LinkPhase::Connected,
    {
        CommandLink { phase: LinkPhase::Connected }
    }

    /// Applies one event and says what to do next.
    pub fn on_event(&mut self, e: LinkEvent) -> (a: LinkAction)
        ensures
            (final(self).phase(), a) == link_step(old(self).phase(), e),
    {
        match self.phase {
            LinkPhase::Connected => match e {
                LinkEvent::Received(Some(c)) => LinkAction::Deliver(c),
                LinkEvent::Received(None) => LinkAction::Receive,
                LinkEvent::ReceiveFailed => {
                    self.phase = LinkPhase::Reconnecting;
                    LinkAction::Reconnect
                },
                LinkEvent::PingDue => LinkAction::SendPing,
                LinkEvent::ClientReady => LinkAction::Receive,
            },
            LinkPhase::Reconnecting => match e {
                LinkEvent::ClientReady => {
                    self.phase = LinkPhase::Connected;
                    LinkAction::Receive
                },
                _ => LinkAction::AwaitClient,
            },
        }
    }
}

proof fn lemma_stays_reconnecting(events: Seq<LinkEvent>)
    requires
        forall|j: int| 0 <= j < events.len() ==> !(#[trigger] events[j] is ClientReady),
    ensures
        phase_after(LinkPhase::Reconnecting, events) == LinkPhase::Reconnecting,
    decreases events.len(),
{
    if events.len() > 0 {
        let rest = events.drop_last();
        assert forall|j: int| 0 <= j < rest.len() implies !(#[trigger] rest[j] is ClientReady) by {
            assert(rest[j] == events[j]);
        }
        lemma_stays_reconnecting(rest);
    }
}

/// A failed receive is never answered with a stale result: it drops the
/// client and signals a reconnect, and after that no command is delivered
/// before the reconnect task has published a fresh client, whatever else
/// happens in between.
pub proof fn lemma_no_command_before_fresh_client(events: Seq<LinkEvent>, k: int)
    requires
        0 <= k < events.len(),
        link_step(phase_after(LinkPhase::Reconnecting, events.subrange(0, k)), events[k]).1 is Deliver,
    ensures
        link_step(LinkPhase::Connected, LinkEvent::ReceiveFailed) == (
            LinkPhase::Reconnecting,
            LinkAction::Reconnect,
        ),
        exists|j: int| 0 <= j < k && #[trigger] events[j] is ClientReady,
{
    if forall|j: int| 0 <= j < k ==> !(#[trigger] events[j] is ClientReady) {
        let prefix = events.subrange(0, k);
        assert forall|j: int| 0 <= j < prefix.len() implies !(#[trigger] prefix[j] is ClientReady) by {
            assert(prefix[j] == events[j]);
        }
        lemma_stays_reconnecting(prefix);
    }
}

/// The command a payload's JSON members carry: the `command` member naming
/// one of `Stop`, `Speak` or `Listen`.
pub open spec fn command_of(parsed: Option<Seq<(Seq<char>, Option<Seq<char>>)>>) -> Option<Command> {
    match parsed {
        Some(m) => {
            let c = string_member(m, "command"@);
            if c == Some("Stop"@) {
                Some(Command::Stop)
            } else if c == Some("Speak"@) {
                Some(Command::Speak)
            } else if c == Some("Listen"@) {
                Some(Command::Listen)
            } else {
                None
            }
        },
        None => None,
    }
}

/// Reads the command out of a publication's payload text.
pub fn parse_command(payload: &str) -> (r: Option<Command>)
    ensures
        r == command_of(json_object_members(payload@)),
{
    match parse_object(payload) {
        None => None,
        Some(m) => match find_string(m.as_slice(), "command") {
            None => None,
            Some(c) => {
                if is_text(&c, "Stop") {
                    Some(Command::Stop)
                } else if is_text(&c, "Speak") {
                    Some(Command::Speak)
                } else if is_text(&c, "Listen") {
                    Some(Command::Listen)
                } else {
                    None
                }
            },
        },
    }
}

} // verus!
