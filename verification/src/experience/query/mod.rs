//! Queries over the experiences of an entity.

pub mod select_closer_experiences;
