//! A "bang-command" redirector core: a short alias plus optional free text is
//! resolved to a fully formed destination URL, and a landing page enumerating
//! every known command can be assembled and memoized.

pub mod bindings;
pub mod command;
pub mod github;
pub mod godocs;
pub mod googlechat;
pub mod googlesheets;
pub mod googleslides;
pub mod order;
pub mod perplexity;
pub mod registry;
pub mod text;
pub mod url_encoding;
pub mod web;
