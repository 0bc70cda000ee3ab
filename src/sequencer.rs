//! The action sequencer: a fixed script of waits, messages and reactions,
//! expanded into a flat plan of commands and played back one command at a
//! time by whoever holds the channel.

use vstd::prelude::*;
use crate::typing::{timeable, typing_delay, typing_delay_ms, is_timeable};

verus! {

/// One step of a script.
pub enum Action {
    /// Pause for the given number of milliseconds.
    Wait(u64),
    /// Send the text as a new message.
    Send(String),
    /// Send the text as a new message, then react to that very message with
    /// the emoji.
    SendAndReact(String, char),
}

impl Clone for Action {
    fn clone(&self) -> (r: Self)
        ensures
            r == *self,
    {
        match self {
            Action::Wait(ms) => Action::Wait(*ms),
            Action::Send(text) => Action::Send(text.clone()),
            Action::SendAndReact(text, emoji) => Action::SendAndReact(text.clone(), *emoji),
        }
    }
}

/// Why a run stopped before the end of its script.
#[derive(Clone, Copy, Debug, PartialEq, Eq, Structural)]
pub enum SequenceError {
    /// The channel rejected or could not deliver a message.
    SendFailed,
    /// The reaction could not be attached to the message.
    ReactionFailed,
}

impl SequenceError {
    /// The human-readable text of the error, for display in the channel.
    pub open spec fn message_spec(self) -> Seq<char> {
        match self {
            SequenceError::SendFailed => "Unable to send message in channel"@,
            SequenceError::ReactionFailed => "Failed to react to message"@,
        }
    }

    /// The human-readable text of the error, for display in the channel.
    pub fn message(&self) -> (r: &'static str)
        ensures
            r@ == self.message_spec(),
    {
        match self {
            SequenceError::SendFailed => "Unable to send message in channel",
            SequenceError::ReactionFailed => "Failed to react to message",
        }
    }
}

/// One unit of outside work that the driver of a run performs.
#[derive(Debug, PartialEq, Eq)]
pub enum Command {
    /// Suspend for the given number of milliseconds.
    Sleep(u64),
    /// Show the typing indicator in the channel (best effort).
    StartTyping,
    /// Send the text as a new message in the channel.
    Send(String),
    /// Clear the typing indicator, if it was shown (best effort).
    StopTyping,
    /// React with `emoji` to the message sent by this run at index `message`
    /// (counting from 0 in the order the messages were sent).
    React { message: usize, emoji: char },
}

impl Clone for Command {
    fn clone(&self) -> (r: Self)
        ensures
            r == *self,
    {
        match self {
            Command::Sleep(ms) => Command::Sleep(*ms),
            Command::StartTyping => Command::StartTyping,
            Command::Send(text) => Command::Send(text.clone()),
            Command::StopTyping => Command::StopTyping,
            Command::React { message, emoji } => Command::React { message: *message, emoji: *emoji },
        }
    }
}

/// What the driver of a run does next.
#[derive(Debug, PartialEq, Eq)]
pub enum Step {
    /// Perform the command, then report whether it succeeded.
    Perform(Command),
    /// The run is over, with this outcome.
    Finish(Result<(), SequenceError>),
}

/// An action that produces a message.
pub open spec fn is_send(a: Action) -> bool {
    a is Send || a is SendAndReact
}

/// The number of messages that the actions of `script` produce.
pub open spec fn sends_in(script: Seq<Action>) -> nat
    decreases script.len(),
{
    if script.len() == 0 {
        0
    } else {
        sends_in(script.drop_last()) + if is_send(script.last()) {
            1nat
        } else {
            0nat
        }
    }
}

/// Every text of the script has a typing delay that fits in milliseconds.
pub open spec fn script_timeable(script: Seq<Action>) -> bool {
    forall|i: int|
        0 <= i < script.len() ==> match #[trigger] script[i] {
            Action::Wait(_) => true,
            Action::Send(text) => timeable(text@),
            Action::SendAndReact(text, _) => timeable(text@),
        }
}

/// The commands that send one message: show the typing indicator, wait the
/// typing delay of the text, send it, clear the indicator.
pub open spec fn send_commands(text: String) -> Seq<Command> {
    seq![
        Command::StartTyping,
        Command::Sleep(typing_delay(text@.len()) as u64),
        Command::Send(text),
        Command::StopTyping,
    ]
}

/// The commands of one action, where `message` is the index of the message
/// that the action produces, if it produces one.
pub open spec fn action_commands(a: Action, message: usize) -> Seq<Command> {
    match a {
        Action::Wait(ms) => seq![Command::Sleep(ms)],
        Action::Send(text) => send_commands(text),
        Action::SendAndReact(text, emoji) => send_commands(text).push(
            Command::React { message, emoji },
        ),
    }
}

/// The commands of a whole script, action after action, in order.
pub open spec fn plan_of(script: Seq<Action>) -> Seq<Command>
    decreases script.len(),
{
    if script.len() == 0 {
        seq![]
    } else {
        plan_of(script.drop_last()) + action_commands(
            script.last(),
            sends_in(script.drop_last()) as usize,
        )
    }
}

/// The commands that send `text`, appended to `steps`.
fn push_send_commands(steps: &mut Vec<Command>, text: &String)
    requires
        timeable(text@),
    ensures
        final(steps)@ == old(steps)@ + send_commands(*text),
{
    steps.push(Command::StartTyping);
    steps.push(Command::Sleep(typing_delay_ms(text.as_str())));
    steps.push(Command::Send(text.clone()));
    steps.push(Command::StopTyping);
}

/// Expands a script into its plan of commands.
pub fn plan(script: &Vec<Action>) -> (r: Vec<Command>)
    requires
        script_timeable(script@),
    ensures
        r@ == plan_of(script@),
{
    let mut steps: Vec<Command> = Vec::new();
    let mut sent: usize = 0;
    let mut i: usize = 0;
    while i < script.len()
        invariant
            i <= script.len(),
            sent <= i,
            sent == sends_in(script@.subrange(0, i as int)),
            steps@ == plan_of(script@.subrange(0, i as int)),
            script_timeable(script@),
        decreases script.len() - i,
    {
        let ghost prefix = script@.subrange(0, i as int);
        let ghost next = script@.subrange(0, i + 1);
        assert(next.drop_last() == prefix);
        assert(next.last() == script@[i as int]);
        match &script[i] {
            Action::Wait(ms) => {
                steps.push(Command::Sleep(*ms));
            },
            Action::Send(text) => {
                push_send_commands(&mut steps, text);
                sent = sent + 1;
            },
            Action::SendAndReact(text, emoji) => {
                push_send_commands(&mut steps, text);
                steps.push(Command::React { message: sent, emoji: *emoji });
                sent = sent + 1;
            },
        }
        i = i + 1;
    }
    assert(script@.subrange(0, script.len() as int) == script@);
    steps
}

/// Whether every text of the script has a typing delay that fits in
/// milliseconds.
pub fn script_is_timeable(script: &Vec<Action>) -> (r: bool)
    ensures
        r == script_timeable(script@),
{
    let mut i: usize = 0;
    while i < script.len()
        invariant
            i <= script.len(),
            forall|j: int|
                0 <= j < i ==> match #[trigger] script@[j] {
                    Action::Wait(_) => true,
                    Action::Send(text) => timeable(text@),
                    Action::SendAndReact(text, _) => timeable(text@),
                },
        decreases script.len() - i,
    {
        let ok = match &script[i] {
            Action::Wait(_) => true,
            Action::Send(text) => is_timeable(text.as_str()),
            Action::SendAndReact(text, _) => is_timeable(text.as_str()),
        };
        if !ok {
            return false;
        }
        i = i + 1;
    }
    true
}

/// The error that ends a run when `cmd` fails, if its failure ends the run.
/// Sleeping and the typing indicator are best effort: their failures are
/// ignored.
pub open spec fn failure_of(cmd: Command) -> Option<SequenceError> {
    match cmd {
        Command::Send(_) => Some(SequenceError::SendFailed),
        Command::React { .. } => Some(SequenceError::ReactionFailed),
        _ => None,
    }
}

/// The state of a run: the plan, the position of the next command in it, and
/// the error that ended the run, if one did.
pub struct RunState {
    pub steps: Seq<Command>,
    pub pos: nat,
    pub failure: Option<SequenceError>,
}

impl RunState {
    /// The state before the first command of `script`.
    pub open spec fn start(script: Seq<Action>) -> RunState {
        RunState { steps: plan_of(script), pos: 0, failure: None }
    }

    /// What the driver does in this state.
    pub open spec fn next_step(self) -> Step {
        match self.failure {
            Some(e) => Step::Finish(Err(e)),
            None => if self.pos < self.steps.len() {
                Step::Perform(self.steps[self.pos as int])
            } else {
                Step::Finish(Ok(()))
            },
        }
    }

    /// The state after the driver reports whether the command of
    /// `next_step` succeeded. Once the run is over, reports change nothing.
    pub open spec fn after_report(self, succeeded: bool) -> RunState {
        if self.failure is None && self.pos < self.steps.len() {
            let cmd = self.steps[self.pos as int];
            if !succeeded && failure_of(cmd) is Some {
                RunState { steps: self.steps, pos: self.pos, failure: failure_of(cmd) }
            } else {
                RunState { steps: self.steps, pos: self.pos + 1, failure: None }
            }
        } else {
            self
        }
    }
}

/// Plays a script back, one command at a time.
pub struct Sequencer {
    steps: Vec<Command>,
    pos: usize,
    failure: Option<SequenceError>,
}

impl View for Sequencer {
    type V = RunState;

    closed spec fn view(&self) -> RunState {
        RunState { steps: self.steps@, pos: self.pos as nat, failure: self.failure }
    }
}

impl Sequencer {
    /// A sequencer at the start of `script`.
    pub fn new(script: &Vec<Action>) -> (r: Sequencer)
        requires
            script_timeable(script@),
        ensures
            r@ == RunState::start(script@),
    {
        Sequencer { steps: plan(script), pos: 0, failure: None }
    }

    /// What the driver does next.
    pub fn next_step(&self) -> (r: Step)
        ensures
            r == self@.next_step(),
    {
        match self.failure {
            Some(e) => Step::Finish(Err(e)),
            None => if self.pos < self.steps.len() {
                Step::Perform(self.steps[self.pos].clone())
            } else {
                Step::Finish(Ok(()))
            },
        }
    }

    /// Records whether the command that `next_step` gave succeeded.
    pub fn report(&mut self, succeeded: bool)
        ensures
            final(self)@ == old(self)@.after_report(succeeded),
    {
        if self.failure.is_none() && self.pos < self.steps.len() {
            let failure = match &self.steps[self.pos] {
                Command::Send(_) => Some(SequenceError::SendFailed),
                Command::React { .. } => Some(SequenceError::ReactionFailed),
                _ => None,
            };
            if !succeeded && failure.is_some() {
                self.failure = failure;
            } else {
                self.pos = self.pos + 1;
            }
        }
    }
}

} // verus!
