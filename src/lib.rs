//! A scripted "gather everyone" routine for a chat bot: a fixed list of timed
//! actions played back against one channel, with a synthetic typing delay
//! before each message, and the mapping from slash-command names to replies.
//!
//! The library never talks to a chat service itself. A driver asks the
//! [`sequencer::Sequencer`] what to do next, performs it, and reports whether
//! it worked.

pub mod typing;
pub mod sequencer;
pub mod runs;
pub mod commands;
pub mod gather;
