//! Core logic of a Zenn-to-VitePress content converter.
//!
//! The library holds the decision and transformation logic: name and
//! substring filtering of discovered files, the recursive directory walk
//! over an in-memory tree, splitting a Markdown document into YAML
//! frontmatter and body, rewriting a document with a synthesized title
//! heading, and planning the image copies. All file and console I/O lives
//! with the callers; YAML parsing and serialization are delegated to
//! `serde_yaml` behind trusted wrappers.

pub mod filter;
pub mod frontmatter;
pub mod images;
pub mod props;
pub mod rewrite;
pub mod text;
pub mod walk;
pub mod yaml;
