//! The script of the gather command.

use vstd::prelude::*;
use crate::sequencer::{script_timeable, Action};

verus! {

/// The emoji of the sleepy reaction.
pub const SLEEPY: char = '\u{1F634}';

/// The gather script: a few timed messages, one of which gets a sleepy
/// reaction right after it is sent.
pub open spec fn is_gather_script(script: Seq<Action>) -> bool {
    &&& script.len() == 10
    &&& script[0] == Action::Wait(1000)
    &&& script[1] matches Action::Send(t) && t@ == "Hey!"@
    &&& script[2] == Action::Wait(1000)
    &&& script[3] matches Action::Send(t) && t@ == "What's going on here?"@
    &&& script[4] == Action::Wait(1000)
    &&& script[5] matches Action::SendAndReact(t, e) && t@ == "Why is @everyone asleep!?!?"@ && e
        == SLEEPY
    &&& script[6] == Action::Wait(2000)
    &&& script[7] matches Action::Send(t) && t@ == "Come on come one! Wake up!"@
    &&& script[8] == Action::Wait(500)
    &&& script[9] matches Action::Send(t) && t@ == "It's Time to Game!"@
}

/// The script that the gather command plays in the channel.
pub fn gather_script() -> (r: Vec<Action>)
    ensures
        is_gather_script(r@),
        script_timeable(r@),
{
    let r = vec![
        Action::Wait(1000),
        Action::Send(String::from_str("Hey!")),
        Action::Wait(1000),
        Action::Send(String::from_str("What's going on here?")),
        Action::Wait(1000),
        Action::SendAndReact(String::from_str("Why is @everyone asleep!?!?"), SLEEPY),
        Action::Wait(2000),
        Action::Send(String::from_str("Come on come one! Wake up!")),
        Action::Wait(500),
        Action::Send(String::from_str("It's Time to Game!")),
    ];
    proof {
        reveal_strlit("Hey!");
        reveal_strlit("What's going on here?");
        reveal_strlit("Why is @everyone asleep!?!?");
        reveal_strlit("Come on come one! Wake up!");
        reveal_strlit("It's Time to Game!");
    }
    r
}

} // verus!
