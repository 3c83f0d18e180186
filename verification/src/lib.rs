//! The logic of a Signal bot for Seerr: what it reads out of the services it
//! talks to, what it decides, and what it says.
pub mod text;
pub mod json;
pub mod moment;
pub mod table;
pub mod texts;
pub mod i18n;
pub mod model;
pub mod arr;
pub mod bell;
pub mod config;
pub mod insight;
pub mod notices;
pub mod secret;
pub mod startup;
pub mod state;
pub mod directory;
pub mod dialog;
pub mod seerr;
pub mod signal;
pub mod watch;
pub mod webhook;
