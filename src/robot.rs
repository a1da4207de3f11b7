//! The top-level state machine that arbitrates between control messages and
//! audio.
//!
//! The loop that drives it races two pending operations per state and feeds
//! whichever resolved first to `Robot::step`; the other one is dropped before
//! it has produced anything. The step decides the next state and what to do
//! with the data.
use vstd::prelude::*;
use crate::proto::Protocol;

verus! {

/// The state of the device.
#[derive(Clone, Copy, Debug, PartialEq, Eq, Structural)]
pub enum RobotState {
    Idle,
    Speaking,
    Listening,
}

/// A command from the control channel.
#[derive(Clone, Copy, Debug, PartialEq, Eq, Structural)]
pub enum Command {
    Stop,
    Speak,
    Listen,
}

/// What the loop waits for in a state, besides control messages.
#[derive(Clone, Copy, Debug, PartialEq, Eq, Structural)]
pub enum Wait {
    /// Only the control channel.
    ControlOnly,
    /// The control channel or inbound audio, whichever comes first.
    ControlOrInbound,
    /// The control channel or recorded audio, whichever comes first.
    ControlOrRecording,
}

/// The operation that resolved first.
pub enum Event {
    Control(Command),
    /// Compressed audio received from the server.
    Inbound(Vec<u8>),
    /// Compressed audio recorded by the device.
    Recorded(Vec<u8>),
}

/// What the loop does after a step.
pub enum Action {
    Nothing,
    /// Hand the audio to the playback pipeline.
    Play(Vec<u8>),
    /// Send the audio to the server as a binary message.
    SendBin(Vec<u8>),
}

/// The state a command leads to.
pub open spec fn command_target(c: Command) -> RobotState {
    match c {
        Command::Stop => RobotState::Idle,
        Command::Speak => RobotState::Speaking,
        Command::Listen => RobotState::Listening,
    }
}

/// What the loop waits for in state `s`.
pub open spec fn wait_of(s: RobotState) -> Wait {
    match s {
        RobotState::Idle => Wait::ControlOnly,
        RobotState::Speaking => Wait::ControlOrInbound,
        RobotState::Listening => Wait::ControlOrRecording,
    }
}

/// The state after event `e` in state `s`: a command sets the state it
/// names; audio leaves the state as it is.
pub open spec fn next_state(s: RobotState, e: Event) -> RobotState {
    match e {
        Event::Control(c) => command_target(c),
        _ => s,
    }
}

/// Whether `a` is what the loop does with event `e` in state `s`: inbound
/// audio is played while speaking, recorded audio is sent while listening,
/// and everything else (commands, audio the state does not wait for) leads
/// to no action.
pub open spec fn action_of(s: RobotState, e: Event, a: Action) -> bool {
    match e {
        Event::Inbound(d) => if s == RobotState::Speaking {
            a matches Action::Play(p) && p@ == d@
        } else {
            a is Nothing
        },
        Event::Recorded(d) => if s == RobotState::Listening {
            a matches Action::SendBin(p) && p@ == d@
        } else {
            a is Nothing
        },
        Event::Control(_) => a is Nothing,
    }
}

/// The device: its state, its session layer and its audio pipeline.
pub struct Robot<P, C> {
    state: RobotState,
    proto: Protocol<P>,
    codec: C,
}

impl<P, C> Robot<P, C> {
    /// The current state.
    pub closed spec fn current(&self) -> RobotState {
        self.state
    }

    /// The session layer.
    pub closed spec fn session_layer(&self) -> Protocol<P> {
        self.proto
    }

    /// The audio pipeline.
    pub closed spec fn audio(&self) -> C {
        self.codec
    }

    /// A robot in the idle state over a fresh session layer on `proto`.
    pub fn new(proto: P, codec: C) -> (r: Self)
        ensures
            r.current() == RobotState::Idle,
            r.session_layer().transport == proto,
            r.session_layer().session() is None,
            r.audio() == codec,
    {
        Robot { state: RobotState::Idle, proto: Protocol::new(proto), codec }
    }

    /// Forces the state; meant for diagnostics.
    pub fn set_state(&mut self, state: RobotState)
        ensures
            final(self).current() == state,
            final(self).session_layer() == old(self).session_layer(),
            final(self).audio() == old(self).audio(),
    {
        self.state = state;
    }

    pub fn state(&self) -> (r: RobotState)
        ensures
            r == self.current(),
    {
        self.state
    }

    /// What the loop has to wait for in the current state.
    pub fn awaits(&self) -> (r: Wait)
        ensures
            r == wait_of(self.current()),
    {
        match self.state {
            RobotState::Idle => Wait::ControlOnly,
            RobotState::Speaking => Wait::ControlOrInbound,
            RobotState::Listening => Wait::ControlOrRecording,
        }
    }

    /// The session layer.
    pub fn proto_mut(&mut self) -> (r: &mut Protocol<P>)
        ensures
            *r == old(self).session_layer(),
            final(self).session_layer() == *final(r),
            final(self).current() == old(self).current(),
            final(self).audio() == old(self).audio(),
    {
        &mut self.proto
    }

    /// The audio pipeline.
    pub fn codec_mut(&mut self) -> (r: &mut C)
        ensures
            *r == old(self).audio(),
            final(self).audio() == *final(r),
            final(self).current() == old(self).current(),
            final(self).session_layer() == old(self).session_layer(),
    {
        &mut self.codec
    }

    /// Applies the event that resolved first and says what to do with it.
    pub fn step(&mut self, event: Event) -> (a: Action)
        ensures
            final(self).current() == next_state(old(self).current(), event),
            action_of(old(self).current(), event, a),
            final(self).session_layer() == old(self).session_layer(),
            final(self).audio() == old(self).audio(),
    {
        match event {
            Event::Control(c) => {
                self.state = match c {
                    Command::Stop => RobotState::Idle,
                    Command::Speak => RobotState::Speaking,
                    Command::Listen => RobotState::Listening,
                };
                Action::Nothing
            },
            Event::Inbound(d) => match self.state {
                RobotState::Speaking => Action::Play(d),
                _ => Action::Nothing,
            },
            Event::Recorded(d) => match self.state {
                RobotState::Listening => Action::SendBin(d),
                _ => Action::Nothing,
            },
        }
    }
}

/// Speaking interrupts listening: from `Listening`, a `Speak` command moves
/// to `Speaking` at once and forwards nothing; recorded audio that resolves
/// after that (the abandoned recording) is not sent, whatever it holds.
pub proof fn lemma_speak_abandons_recording(chunk: Seq<u8>)
    ensures
        next_state(RobotState::Listening, Event::Control(Command::Speak)) == RobotState::Speaking,
        forall|a: Action|
            action_of(RobotState::Listening, Event::Control(Command::Speak), a) ==> a is Nothing,
        forall|d: Vec<u8>, a: Action|
            d@ == chunk && action_of(RobotState::Speaking, Event::Recorded(d), a) ==> a is Nothing,
{
}

} // verus!
