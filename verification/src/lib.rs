//! Discovery of JavaScript resource references in web pages.
//!
//! The library holds the computational core of a bulk link-extraction tool:
//! scanning page text for `<script>` and `<div>` elements, collecting raw
//! script references from attributes and inline script bodies, rewriting each
//! reference into an absolute URL relative to its source page, and deciding,
//! per input line, whether a page is to be fetched at all.  Network I/O, the
//! worker pool and the command line live outside the library and hand it
//! plain values.

pub mod chars;
pub mod config;
pub mod extract;
pub mod html;
pub mod normalize;
pub mod pattern;
pub mod pipeline;
pub mod weburl;

pub use config::Args;
pub use config::args;
pub use extract::RawRef;
pub use extract::extract;
pub use extract::scrape_text;
pub use normalize::normalize;
pub use normalize::normalize_if_needed;
pub use weburl::ParsedUrl;
pub use weburl::UrlCheck;
pub use weburl::check_url;
