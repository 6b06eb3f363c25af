//! Episodes, and the characters that appear in them.
use vstd::prelude::*;

use crate::character::Character;
use crate::related::{begins, Fanout, Progress};

verus! {

/// An episode of the catalogue.
#[derive(Clone, Debug, PartialEq, Default)]
pub struct Episode {
    /// The episode's id.
    pub id: i64,
    /// The episode's name.
    pub name: String,
    /// When the episode first aired, e.g. `"December 2, 2013"`.
    pub air_date: String,
    /// The episode's code, e.g. `"S01E01"`.
    pub episode: String,
    /// The URLs of the characters that appear in the episode.
    pub characters: Vec<String>,
    /// The URL of the episode's own record.
    pub url: String,
    /// When the record was created.
    pub created: String,
}

impl Episode {
    /// Begins resolving the characters that appear in the episode.
    pub fn characters_start<E>(&self) -> (r: Progress<Character, E>)
        ensures
            begins(self.characters@, r),
    {
        Fanout::start(&self.characters)
    }
}

} // verus!
