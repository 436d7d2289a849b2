//! Streaming ingestion of the Wikidata entity dump into a compact geographic
//! store: the line framer, the resumable HTTP source's reconnect rules, the
//! entity projector, Wikidata time handling, class membership and the
//! writer's batching.

pub mod classes;
pub mod database;
pub mod input;
pub mod json;
pub mod text;
pub mod wiki_data_line;
pub mod wiki_time;
