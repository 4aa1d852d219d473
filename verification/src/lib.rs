//! Core of a same-host website crawler that collects on-page SEO signals.
//!
//! The library decides which page to fetch next, reads the signals out of a
//! parsed page, filters the links worth following and assembles one record per
//! page. Network access and rendering are left to the caller.

pub mod analyze;
pub mod crawl;
pub mod html;
pub mod links;
pub mod report;
pub mod response;
pub mod site;
pub mod sitemap;
pub mod text;
