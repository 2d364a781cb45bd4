//! Converts Markdown documents with front matter into the relational dataset
//! of a Ghost import: posts, tags, users and the rows that join them.

pub mod dates;
pub mod error;
pub mod models;
pub mod processors;
pub mod scan;
pub mod slug;
pub mod text;
pub mod timestamp;
pub mod utils;

pub use models::ghost as ghost_models;
pub use models::markdown as markdown_models;
pub use processors::ghost_export as ghost_exporter;
pub use processors::markdown as markdown_processor;
pub use utils::file_ops as file_operations;
