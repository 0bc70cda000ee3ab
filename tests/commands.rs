use gather_bot::commands::{
    dispatch, failure_report, gather_greeting, same_text, ChannelError, Dispatch, SlashCommand,
};
use gather_bot::sequencer::SequenceError;

#[test]
fn ping_is_answered() {
    assert_eq!(dispatch("ping"), Dispatch::Respond("Hey, I'm alive!"));
}

#[test]
fn gather_starts_the_routine() {
    assert_eq!(dispatch("gather"), Dispatch::StartGathering);
}

#[test]
fn unknown_commands_get_no_reply() {
    assert_eq!(dispatch("dance"), Dispatch::Unknown);
    assert_eq!(dispatch(""), Dispatch::Unknown);
    assert_eq!(dispatch("Ping"), Dispatch::Unknown);
    assert_eq!(dispatch("gathering"), Dispatch::Unknown);
}

#[test]
fn command_names_round_trip() {
    for c in [SlashCommand::Gather, SlashCommand::Ping] {
        assert_eq!(SlashCommand::from_name(c.name()), Some(c));
    }
    assert_eq!(SlashCommand::Gather.name(), "gather");
    assert_eq!(SlashCommand::Ping.name(), "ping");
    assert_eq!(
        SlashCommand::Gather.description(),
        "A call to gather all server members for some games"
    );
    assert_eq!(SlashCommand::Ping.description(), "A ping command");
    assert_eq!(SlashCommand::from_name("pong"), None);
    assert_eq!(SlashCommand::registered(), vec![SlashCommand::Gather, SlashCommand::Ping]);
}

#[test]
fn texts_compare_by_characters() {
    assert!(same_text("abc", "abc"));
    assert!(same_text("", ""));
    assert!(!same_text("abc", "abd"));
    assert!(!same_text("abc", "ab"));
    assert!(same_text("\u{1F634}", "😴"));
}

#[test]
fn greeting_names_the_user() {
    assert_eq!(gather_greeting("sam"), "OK sam, let's get this party started!");
    assert_eq!(gather_greeting(""), "OK , let's get this party started!");
}

#[test]
fn failures_are_reported_as_text() {
    assert_eq!(
        failure_report(SequenceError::SendFailed),
        "Encountered an error: Unable to send message in channel"
    );
    assert_eq!(
        failure_report(SequenceError::ReactionFailed),
        "Encountered an error: Failed to react to message"
    );
}

#[test]
fn channel_errors_have_messages() {
    assert_eq!(
        ChannelError::ResolutionFailed.message(),
        "Internal error: could not find the originating channel."
    );
    assert_eq!(
        ChannelError::NotAGuildChannel.message(),
        "This command can only be used in a server channel."
    );
}
