//! What the home page renders.

use vstd::prelude::*;

verus! {

/// One rendered timeline row: the message, the posting time as
/// `YYYY/MM/DD HH:MM` in UTC, and the author's display name.
pub struct Tweet {
    pub message: String,
    pub posted_at: String,
    pub name: String,
}

/// The home view: rendered rows, most recent first.
pub struct Home {
    pub tweets: Vec<Tweet>,
}

} // verus!
