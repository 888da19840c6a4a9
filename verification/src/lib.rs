//! Rules of an image-archive viewer: which names are images or archives,
//! how names are ordered, and what each request answers once the archive or
//! the directory has been read.

pub mod archive;
pub mod directory;
pub mod format;
pub mod names;
pub mod natural;
pub mod outside;
pub mod text;
pub mod trash;
