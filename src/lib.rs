//! A static site generator's content pipeline: slugs, frontmatter, autolinking,
//! link annotations, backlinks and page assembly, with verified contracts.

pub mod text;
pub mod slug;
pub mod post;
pub mod links;
pub mod url;
pub mod autolink;
pub mod frontmatter;
pub mod loader;
pub mod initials;
pub mod config;
pub mod render;
pub mod annotations;
pub mod link_meta;
pub mod page_meta;
pub mod generator;
pub mod commands;
pub mod watch;
