//! Web pages as Markdown, one page at a time or a whole site.
//!
//! The library converts an HTML document to Markdown and keeps the books of a
//! breadth-first crawl over the pages of one site. Every function is verified
//! with Verus against a contract over a mathematical model of its data.
//!
//! - [`markdown`] holds the formatter: a walk over a document tree with an
//!   explicit state, and [`markdown::html_to_markdown`], the conversion of an
//!   HTML text. [`dom`] is the tree, [`element`] the kinds of elements,
//!   [`table`] the layout of tables, [`metadata`] what a page says of itself,
//!   and [`text`] the handling of characters and white space.
//! - [`crawl`] decides which address a crawl fetches next and what becomes of
//!   a fetched page; [`fetch`] decides what to do with each answer of a
//!   server; [`fingerprint`] draws the browser profile that a fetch wears;
//!   [`http`] reads requests and lays out answers.
//! - [`theorems`] holds what is proved of every conversion.
//!
//! Fetching, waiting and answering are left to the caller: the library takes
//! and gives plain values.
//!
//! A few functions of other crates are called where the work is theirs: the
//! HTML parser, the URL parser, a regular expression, a random number
//! generator and two functions of the standard library. Each stands behind one
//! function with `external_body`, whose contract is believed, not proved.

pub mod config;
pub mod crawl;
pub mod dom;
pub mod element;
pub mod fetch;
pub mod fingerprint;
pub mod http;
pub mod markdown;
pub mod metadata;
pub mod table;
pub mod text;
pub mod theorems;
