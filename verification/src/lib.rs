//! Watches a browser's bookmark store and reports newly captured bookmarks.
//!
//! The heart of the library is a byte-level codec for the bookmark-store
//! document and a recursive extractor that collects the bookmarks filed
//! under folders named "capture".  The surrounding process (polling,
//! filesystem-event subscription, the shared output file) only feeds
//! plain values into these functions and writes their results out.

pub mod codec;
pub mod extract;
pub mod json;
pub mod parse;
pub mod tree;
pub mod watch;

pub use codec::ParseError;
pub use codec::parse_bookmarks;
pub use codec::process_bookmarks;
pub use codec::serialize_bookmarks;
pub use codec::serialize_children;
pub use extract::extract_bookmarks;
pub use tree::Bookmarks;
pub use tree::Child;
pub use tree::Folder;
pub use tree::MetaInfo;
pub use tree::Roots;
pub use watch::WatchEvent;
pub use watch::event_matches;
pub use watch::target_path;
