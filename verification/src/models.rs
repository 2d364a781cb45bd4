pub mod ghost;
pub mod markdown;

pub use ghost::{Data, GhostImport, Meta, Post, PostsAuthors, PostsTags, RolesUsers, Tag, User};
pub use markdown::{FieldValue, Frontmatter, ProcessedMarkdown};
