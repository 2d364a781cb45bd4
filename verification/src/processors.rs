pub mod export_laws;
pub mod export_model;
pub mod frontmatter;
pub mod ghost_export;
pub mod images;
pub mod markdown;

pub use ghost_export::GhostExporter;
pub use markdown::MarkdownProcessor;
