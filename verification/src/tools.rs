//! The tools the server offers, grouped by the GLPI objects they work on.
pub mod categories;
pub mod common;
pub mod followups;
pub mod hierarchy;
pub mod kb;
pub mod profiles;
pub mod rules;
pub mod session;
pub mod solutions;
pub mod stats;
pub mod tasks;
pub mod tickets;
pub mod users_groups;
