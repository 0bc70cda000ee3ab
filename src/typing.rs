//! The synthetic typing delay shown before a message appears.

use vstd::prelude::*;

verus! {

/// Time the bot takes to type one character of a message, in milliseconds.
pub const MS_PER_CHAR: u64 = 100;

/// The typing delay, in milliseconds, for a text of `len` characters.
pub open spec fn typing_delay(len: nat) -> int {
    len * MS_PER_CHAR
}

/// A text whose typing delay fits in a `u64` number of milliseconds.
pub open spec fn timeable(text: Seq<char>) -> bool {
    typing_delay(text.len()) <= u64::MAX
}

/// The typing delay, in milliseconds, for `text`: its length in characters
/// times [`MS_PER_CHAR`].
pub fn typing_delay_ms(text: &str) -> (r: u64)
    requires
        timeable(text@),
    ensures
        r == text@.len() * MS_PER_CHAR,
{
    let len = text.unicode_len() as u64;
    len * MS_PER_CHAR
}

/// Whether the typing delay of `text` can be expressed in milliseconds.
pub fn is_timeable(text: &str) -> (r: bool)
    ensures
        r == timeable(text@),
{
    let len = text.unicode_len() as u64;
    len <= u64::MAX / MS_PER_CHAR
}

/// The typing delay of a text is its length in characters times the
/// per-character constant, so a longer text never gets a shorter delay.
pub proof fn lemma_typing_delay_monotonic(a: Seq<char>, b: Seq<char>)
    requires
        a.len() <= b.len(),
    ensures
        typing_delay(a.len()) == a.len() * MS_PER_CHAR,
        typing_delay(a.len()) <= typing_delay(b.len()),
{
}

} // verus!
