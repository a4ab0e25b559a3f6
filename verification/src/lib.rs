//! Verified core of a Hacker News reader: article categories, feed
//! endpoints and event framing, age labels, rich-text layout, search
//! highlighting, search documents and the navigation state of the
//! comment and search views.
pub mod search;
pub mod stories;
pub mod styled;
pub mod text;
pub mod age;
pub mod articles;
pub mod comments;
pub mod config;
pub mod dashboard;
pub mod controls;
pub mod feed;
pub mod full_search;
pub mod header;
pub mod highlight;
pub mod pager;
pub mod punycode;
pub mod reader;
pub mod rich_text;
pub mod navigation;
pub mod types;
pub mod watch;
