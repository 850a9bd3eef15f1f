use vstd::prelude::*;

verus! {

/// One member's voting state within a room.
///
/// `NoVote` is the state after an explicit reset; `NotYetVisible` is the
/// state of a freshly added member. Both render to observers as "no value
/// yet", but only `Hidden`/`Revealed` carry a card index.
#[derive(Copy, Clone, Debug, PartialEq, Eq, Structural)]
pub enum Vote {
    NoVote,
    NotYetVisible,
    Hidden(u32),
    Revealed(u32),
}

impl Default for Vote {
    /// A member who has done nothing yet has not made any vote visible.
    fn default() -> (r: Self)
        ensures
            r == Vote::NotYetVisible,
    {
        Vote::NotYetVisible
    }
}

impl Vote {
    /// The card index the vote carries, if it carries one.
    pub open spec fn spec_value(self) -> Option<u32> {
        match self {
            Vote::Hidden(v) => Some(v),
            Vote::Revealed(v) => Some(v),
            _ => None,
        }
    }

    /// The card index the vote carries; `None` for `NoVote`/`NotYetVisible`.
    pub fn value(&self) -> (r: Option<u32>)
        ensures
            r == self.spec_value(),
    {
        match self {
            Vote::Hidden(value) | Vote::Revealed(value) => Some(*value),
            _ => None,
        }
    }
}

/// Whether the vote is still hidden from the other members.
pub fn vote_hidden(vote: &Vote) -> (r: bool)
    ensures
        r == (vote matches Vote::Hidden(_)),
{
    match vote {
        Vote::Hidden(_) => true,
        _ => false,
    }
}

} // verus!
