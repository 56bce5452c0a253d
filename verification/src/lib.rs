//! Crawl coordination for a small search engine: the frontier queue with
//! leased jobs, the ingestion of crawl results, and the extraction of links
//! and metadata from fetched pages.

pub mod admin;
pub mod crawler;
pub mod extract;
pub mod frontier;
pub mod laws;
pub mod links;
pub mod page;
pub mod payload;
pub mod search;
pub mod selector_set;
pub mod store;
pub mod text;
pub mod view;
pub mod weburl;
pub mod worker;
