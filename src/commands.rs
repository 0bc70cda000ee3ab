//! Slash commands: which names the bot answers to, and what it replies.

use vstd::prelude::*;
use crate::sequencer::SequenceError;

verus! {

/// Whether two texts are the same, character for character.
pub fn same_text(a: &str, b: &str) -> (r: bool)
    ensures
        r == (a@ == b@),
{
    let n = a.unicode_len();
    if n != b.unicode_len() {
        return false;
    }
    let mut i: usize = 0;
    while i < n
        invariant
            n == a@.len(),
            n == b@.len(),
            i <= n,
            forall|j: int| 0 <= j < i ==> a@[j] == b@[j],
        decreases n - i,
    {
        if a.get_char(i) != b.get_char(i) {
            return false;
        }
        i = i + 1;
    }
    assert(a@ =~= b@);
    true
}

/// The slash commands that the bot registers.
#[derive(Clone, Copy, Debug, PartialEq, Eq, Structural)]
pub enum SlashCommand {
    /// Calls everyone in the channel together with a scripted routine.
    Gather,
    /// Answers that the bot is alive.
    Ping,
}

impl SlashCommand {
    /// The name under which the command is registered.
    pub open spec fn name_spec(self) -> Seq<char> {
        match self {
            SlashCommand::Gather => "gather"@,
            SlashCommand::Ping => "ping"@,
        }
    }

    /// The name under which the command is registered.
    pub fn name(&self) -> (r: &'static str)
        ensures
            r@ == self.name_spec(),
    {
        match self {
            SlashCommand::Gather => "gather",
            SlashCommand::Ping => "ping",
        }
    }

    /// The description shown with the command.
    pub fn description(&self) -> (r: &'static str)
        ensures
            r@ == match self {
                SlashCommand::Gather => "A call to gather all server members for some games"@,
                SlashCommand::Ping => "A ping command"@,
            },
    {
        match self {
            SlashCommand::Gather => "A call to gather all server members for some games",
            SlashCommand::Ping => "A ping command",
        }
    }

    /// The commands that the bot registers, in the order it registers them.
    pub fn registered() -> (r: Vec<SlashCommand>)
        ensures
            r@ == seq![SlashCommand::Gather, SlashCommand::Ping],
    {
        vec![SlashCommand::Gather, SlashCommand::Ping]
    }

    /// The command registered under `name`, if there is one.
    pub fn from_name(name: &str) -> (r: Option<SlashCommand>)
        ensures
            forall|c: SlashCommand| #[trigger] c.name_spec() == name@ <==> r == Some(c),
            r is None <==> name@ != SlashCommand::Gather.name_spec() && name@ != SlashCommand::Ping.name_spec(),
    {
        proof {
            lemma_names_distinct(SlashCommand::Gather, SlashCommand::Ping);
        }
        if same_text(name, "gather") {
            Some(SlashCommand::Gather)
        } else if same_text(name, "ping") {
            Some(SlashCommand::Ping)
        } else {
            None
        }
    }
}

/// Two commands have the same name only if they are the same command.
pub proof fn lemma_names_distinct(c: SlashCommand, d: SlashCommand)
    ensures
        c.name_spec() == d.name_spec() <==> c == d,
{
    reveal_strlit("gather");
    reveal_strlit("ping");
    if c != d {
        assert(c.name_spec().len() != d.name_spec().len());
    }
}

/// The reply to the ping command.
pub open spec fn ping_reply_spec() -> Seq<char> {
    "Hey, I'm alive!"@
}

/// What the bot does about an incoming command.
#[derive(Debug, PartialEq, Eq)]
pub enum Dispatch {
    /// Answer the command with this text.
    Respond(&'static str),
    /// Greet the invoking user and run the gather script in the channel.
    StartGathering,
    /// The command is not known: warn, and reply nothing.
    Unknown,
}

/// What the bot does about the command called `name`: the ping command is
/// answered with a fixed text, the gather command starts the script, and
/// any other name is not answered.
pub fn dispatch(name: &str) -> (r: Dispatch)
    ensures
        name@ == SlashCommand::Ping.name_spec() ==> (r matches Dispatch::Respond(text) && text@
            == ping_reply_spec()),
        name@ == SlashCommand::Gather.name_spec() ==> r is StartGathering,
        name@ != SlashCommand::Ping.name_spec() && name@ != SlashCommand::Gather.name_spec() ==> r is Unknown,
{
    match SlashCommand::from_name(name) {
        Some(SlashCommand::Gather) => Dispatch::StartGathering,
        Some(SlashCommand::Ping) => Dispatch::Respond("Hey, I'm alive!"),
        None => Dispatch::Unknown,
    }
}

/// The acknowledgement sent to `user` when the gather command starts.
pub fn gather_greeting(user: &str) -> (r: String)
    ensures
        r@ == "OK "@ + user@ + ", let's get this party started!"@,
{
    let mut r = String::from_str("OK ");
    r.append(user);
    r.append(", let's get this party started!");
    r
}

/// The text posted in the channel when a run fails.
pub fn failure_report(e: SequenceError) -> (r: String)
    ensures
        r@ == "Encountered an error: "@ + e.message_spec(),
{
    let mut r = String::from_str("Encountered an error: ");
    r.append(e.message());
    r
}

/// Why the channel a command came from cannot host the gather routine.
#[derive(Clone, Copy, Debug, PartialEq, Eq, Structural)]
pub enum ChannelError {
    /// The channel could not be looked up.
    ResolutionFailed,
    /// The channel is not a server channel.
    NotAGuildChannel,
}

impl ChannelError {
    /// The human-readable text of the error, sent back as the reply.
    pub fn message(&self) -> (r: &'static str)
        ensures
            r@ == match self {
                ChannelError::ResolutionFailed => "Internal error: could not find the originating channel."@,
                ChannelError::NotAGuildChannel => "This command can only be used in a server channel."@,
            },
    {
        match self {
            ChannelError::ResolutionFailed => "Internal error: could not find the originating channel.",
            ChannelError::NotAGuildChannel => "This command can only be used in a server channel.",
        }
    }
}

} // verus!
