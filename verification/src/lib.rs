//! Data engine of a terminal reader for a ranked news feed.
//!
//! The engine never touches the network or the terminal. It decides what is
//! fetched and what is shown; the program around it fetches and draws.
//!
//! - `story_list`: the ids of a category, the loaded items with their
//!   title lines, and the cursor; loading goes batch by batch.
//! - `comment_tree`: a discussion built level by level from the answers to
//!   the comments it waits for.
//! - `comment_block`: a discussion flattened into indented lines.
//! - `story_block`: the detail of an opened item.
//! - `story_screen`: list, detail and discussion of one category, and the
//!   focus among them.
//! - `record`, `json`: the records of the feed, read out of JSON objects.
//! - `sanitize`: stripping markup.
//! - `hn_api`, `tabs`, `colors`, `text`: addresses, tabs, colours, numbers.

pub mod colors;
pub mod comment_block;
pub mod comment_tree;
pub mod hn_api;
pub mod json;
pub mod record;
pub mod sanitize;
pub mod story_block;
pub mod story_list;
pub mod story_screen;
pub mod tabs;
pub mod text;
