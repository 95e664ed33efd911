//! Verified core of the ayame Discord bot: time stamps, search queries,
//! configuration values, the command registry, menus, downloads and the small
//! text helpers they share.

pub mod text;
pub mod model;
pub mod menu;
pub mod outside;
pub mod error;
pub mod util;
pub mod bot;
pub mod configuration;
pub mod setup;
pub mod slash_commands;
pub mod music;
pub mod utils;
pub mod commands;
