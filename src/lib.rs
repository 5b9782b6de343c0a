//! Builds the XML index of a ReaPack package repository from its resolved
//! configuration: version ordering, entrypoint classification, URL
//! templating and the serialised document.

pub mod text;
pub mod version;
pub mod template;
pub mod config;
pub mod entrypoints;
pub mod url;
mod xml;
pub mod index;
pub mod publish;
