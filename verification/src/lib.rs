//! A lazily filled, path-keyed cache of a remote drive's directory tree, with the
//! rules that decide when a download link has to be renewed.

pub mod cache;
pub mod drive;
pub mod freshness;
pub mod laws;
pub mod path;
pub mod populate;
pub mod vfs;
pub mod webdav;
