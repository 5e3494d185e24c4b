//! Bounded, site-independent archive discovery and feed paging.

pub mod discovery;
pub mod links;
pub mod page;
pub mod pager;
