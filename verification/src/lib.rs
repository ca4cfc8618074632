//! Cask: packs a folder of static web files into one self-serving executable.
//!
//! This crate holds the verified core: path and text handling, the manifest
//! tree that describes a packed site, the route table derived from it, the
//! configuration checks, and the trailer that marks an embedded archive.

pub mod text;
pub mod manifest;
pub mod path_map;
pub mod file;
pub mod routes;
pub mod builder;
pub mod dev_serve;
pub mod paths;
pub mod args;
pub mod server_config;
pub mod size_format;
pub mod memory;
pub mod executable;
pub mod builder_config;
pub mod run_mode;
pub mod util;
pub mod hash_folder;
pub mod archive;
