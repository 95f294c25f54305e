//! What can stand for a competition where a competition's number is wanted.

use crate::models::competitions_list::CompetitionsListElement;
use vstd::prelude::*;

verus! {

/// A value that names a competition.
pub trait CompetitionID {
    /// The competition's number.
    spec fn id_of(&self) -> u32;

    /// The competition's number.
    fn competition_id(&self) -> (r: u32)
        ensures
            r == self.id_of(),
    ;
}

impl CompetitionID for u32 {
    open spec fn id_of(&self) -> u32 {
        *self
    }

    fn competition_id(&self) -> (r: u32) {
        *self
    }
}

impl CompetitionID for CompetitionsListElement {
    open spec fn id_of(&self) -> u32 {
        self.id
    }

    fn competition_id(&self) -> (r: u32) {
        self.id
    }
}

} // verus!
