pub mod file_ops;

pub use file_ops::FileOps;
