//! Content-addressed static site builder: front-matter parsing, input file
//! classification and addressing, revision assembly and publish-time link
//! resolution.

pub mod content;
pub mod text;
pub mod address;
pub mod input_file;
pub mod asset;
pub mod builder;
pub mod route;
pub mod publish;
pub mod page;
pub mod revision;
pub mod cleanup;
