//! The decisions of the desktop interface.

pub mod feed_subscription_feature;
pub mod search_text;
pub mod library_search_feature;
pub mod web_clipping_feature;
pub mod knowledge_feature;
pub mod selection;
pub mod excerpt_thought_feature;
pub mod resource_feature;
pub mod navigation;
pub mod reading;
pub mod modal_state;
pub mod desktop;
pub mod outcomes;
pub mod pages;
