//! Characters, and the records that a character links to.
use vstd::prelude::*;

use crate::entity::Object;
use crate::episode::Episode;
use crate::related::{begins, resolves, Fanout, Link, Progress};

verus! {

/// A character of the catalogue.
#[derive(Clone, Debug, PartialEq, Default)]
pub struct Character {
    /// The character's id.
    pub id: i64,
    /// The character's name.
    pub name: String,
    /// Whether the character is alive: `"Alive"`, `"Dead"` or `"unknown"`.
    pub status: String,
    /// The character's species.
    pub species: String,
    /// The character's type, or subspecies (the field `type` of the service).
    pub character_type: String,
    /// The location the character comes from.
    pub origin: Object,
    /// The location the character was last seen at.
    pub location: Object,
    /// The character's gender.
    pub gender: String,
    /// The URL of the character's image.
    pub image: String,
    /// The URLs of the episodes that the character appears in.
    pub episode: Vec<String>,
    /// The URL of the character's own record.
    pub url: String,
    /// When the record was created.
    pub created: String,
}

impl Character {
    /// The request that resolves the location the character was last seen
    /// at, or none when the record names no such location.
    pub fn location_link(&self) -> (r: Link)
        ensures
            resolves(self.location.url@, r),
    {
        Link::of(&self.location)
    }

    /// The request that resolves the location the character comes from, or
    /// none when the record names no such location.
    pub fn origin_link(&self) -> (r: Link)
        ensures
            resolves(self.origin.url@, r),
    {
        Link::of(&self.origin)
    }

    /// Begins resolving the episodes that the character appears in.
    pub fn episodes_start<E>(&self) -> (r: Progress<Episode, E>)
        ensures
            begins(self.episode@, r),
    {
        Fanout::start(&self.episode)
    }
}

} // verus!
