//! Rewrites the links of documentation comments so that links to program
//! symbols become absolute URLs on a documentation host.
//!
//! [`rewrite_links`] is the whole pass: it reads a comment as markup,
//! resolves each link for the documented item, and writes the markup back.
//! The modules hold its parts, from the bottom up: [`text`], [`namespace`]
//! and [`path`] read what a link says; [`symbols`] is what is known of the
//! program; [`filename`], [`doc_url`] and [`urls`] make the URL of a page;
//! [`resolve`] resolves one link; [`markup`] and [`rewrite`] run over a
//! document.

pub mod doc_url;
pub mod filename;
pub mod markup;
pub mod namespace;
pub mod path;
pub mod resolve;
pub mod rewrite;
pub mod symbols;
pub mod text;
pub mod urls;

pub use rewrite::rewrite_links;
