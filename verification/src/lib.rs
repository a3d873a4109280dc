//! OxideSEO core: the crawl frontier, URL handling, robots and sitemap
//! processing, the SEO rule engine and the report helpers of the crawler.

pub mod text;
pub mod words;
pub mod types;
pub mod page;
pub mod issue;
pub mod rules_meta;
pub mod rules_content;
pub mod rules_other;
pub mod rules_perf;
pub mod registry;
pub mod order;
pub mod frontier;
pub mod urls;
pub mod prompts;
pub mod plugin_page;
pub mod sitemap;
pub mod extract;
pub mod robots;
pub mod queries;
pub mod models;
pub mod results;
pub mod sitetree;
pub mod export;
pub mod manifest;
pub mod config;
pub mod rows;
pub mod crawl_steps;
pub mod post_crawl;
pub mod ai;
pub mod settings;
pub mod plugin_registry;
pub mod sql_guard;
pub mod fetch;
pub mod providers;
pub mod html;
