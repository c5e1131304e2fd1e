//! Core of a personal-dashboard application: pluggable modules (links, RSS,
//! weather, mail, todo) whose configuration is synchronized with a server
//! store under optimistic concurrency, with every payload encrypted on the
//! client under a password-derived key the server never sees.

pub mod clock;
pub mod codec;
pub mod components;
pub mod fetch;
pub mod front_enum;
pub mod holder;
pub mod imap;
pub mod links;
pub mod mail;
pub mod module_positions;
pub mod module_type;
pub mod record;
pub mod rss;
pub mod todo;
pub mod user_data;
pub mod security;
pub mod store;
pub mod translate;
pub mod weather;
