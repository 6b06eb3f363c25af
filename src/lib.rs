//! A typed client for a catalogue service that publishes three collections:
//! characters, locations and episodes.
//!
//! This crate holds the client's decisions, each proved against its contract:
//! which URL a request goes to, how the pages of a collection are gathered,
//! and how the links held by a record are resolved. The requests themselves
//! are made by the caller, which hands each response back.
pub mod character;
pub mod decimal;
pub mod entity;
pub mod episode;
pub mod location;
pub mod pagination;
pub mod related;

pub use crate::entity::{Info, Object, PageResponse, API, EntityTypes};
