//! Builds a Markdown vault out of an archive of tweets: which tweets belong
//! to which conversation, which words become tags, and the text of every
//! note, index and calendar entry.
pub mod model;
pub mod text;
pub mod outside;
pub mod terms;
pub mod render;
pub mod vault;
pub mod database;
