//! The data that the engine works on.

pub mod archive;
pub mod cognitive;
pub mod consolidation;
pub mod events;
pub mod facts;
pub mod forgetting;
pub mod inspect;
pub mod scope;
pub mod search;
