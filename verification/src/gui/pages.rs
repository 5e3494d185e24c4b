//! What the pages of the desktop show, as plain texts and choices.

pub mod archive;
pub mod article_list;
pub mod dashboard;
pub mod excerpts;
pub mod messages;
pub mod reader;
pub mod resources;
pub mod sidebar;
pub mod storage;
