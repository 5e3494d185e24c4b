//! Verified core of a desktop feed reader: what it keeps, what it decides and
//! what it shows. Files, the network, the database and the drawing of windows
//! are left to the program around it.

pub mod address;
pub mod calendar;
pub mod cli;
pub mod config;
pub mod digest;
pub mod directory;
pub mod feed_document;
pub mod feed_scan;
pub mod feed_subscription;
pub mod gui;
pub mod gui_modal;
pub mod gui_state;
pub mod history_backfill_workflow;
pub mod history_discovery;
pub mod image_store;
pub mod json;
pub mod knowledge_workflow;
pub mod library_projection_revision;
pub mod library_search;
pub mod markup;
pub mod model;
pub mod number;
pub mod page_metadata;
pub mod play_time;
pub mod resource_library;
pub mod rss_refresh;
pub mod text;
pub mod xml_text;
