//! Streaming extraction of pages and their revisions from a MediaWiki XML
//! export, driven by the events of an XML tokenizer.
pub mod model;
pub mod builder;
pub mod parser;
pub mod laws;

pub use builder::{BuildError, PageBuilder, Step};
pub use model::{Event, Page, Revision};
pub use parser::{ExtractError, Parser};
