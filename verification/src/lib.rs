//! Verified core of a GLPI service-desk tool server.
pub mod config;
pub mod text;
pub mod markdown;
pub mod search_options;
pub mod serve;
pub mod html;
pub mod json;
pub mod compact;
pub mod labels;
pub mod error;
pub mod client;
pub mod call;
pub mod step;
pub mod tools;
pub mod counts;
