//! Locations, and the characters that live there.
use vstd::prelude::*;

use crate::character::Character;
use crate::related::{begins, Fanout, Progress};

verus! {

/// A location of the catalogue.
#[derive(Clone, Debug, PartialEq, Default)]
pub struct Location {
    /// The location's id.
    pub id: i64,
    /// The location's name.
    pub name: String,
    /// The location's type (the field `type` of the service).
    pub location_type: String,
    /// The dimension the location is in.
    pub dimension: String,
    /// The URLs of the characters that were last seen there.
    pub residents: Vec<String>,
    /// The URL of the location's own record.
    pub url: String,
    /// When the record was created.
    pub created: String,
}

impl Location {
    /// Begins resolving the characters that were last seen at the location.
    pub fn residents_start<E>(&self) -> (r: Progress<Character, E>)
        ensures
            begins(self.residents@, r),
    {
        Fanout::start(&self.residents)
    }
}

} // verus!
