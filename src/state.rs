use vstd::prelude::*;

verus! {

/// Where the daemon keeps the snapshot of its queue.
#[derive(Debug)]
pub struct State {
    pub state_file: String,
}

impl State {
    /// The program state kept at `p`.
    pub fn load(p: String) -> (r: State)
        ensures
            r.state_file == p,
    {
        State { state_file: p }
    }

    /// The program state kept at `p`, whether or not a snapshot exists there
    /// yet: a missing one reads as an empty queue.
    pub fn from(p: String) -> (r: State)
        ensures
            r.state_file == p,
    {
        State::load(p)
    }
}

} // verus!
