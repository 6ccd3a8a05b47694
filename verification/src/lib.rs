//! A static-site template engine: reusable HTML fragments expanded into
//! page templates, feed sections synthesized from a sorted document index,
//! and pages stamped with derived metadata. Front matter is parsed out of
//! document files, cached per root, and exposed in a stable feed order.

pub mod config;
pub mod date;
pub mod engine;
pub mod frontmatter;
pub mod hydrate;
pub mod index;
pub mod meta;
pub mod paths;
pub mod post;
pub mod store;
pub mod tags;
pub mod text;

pub use config::Config;
pub use engine::{expand, substitute_feed, substitute_replace, HTMLError};
pub use index::{sort_documents, MdError, MdInfo, PostIndex};
pub use meta::{add_meta_to_post_html, add_rss_meta};
pub use store::StrMap;
pub use text::truncate_content;
