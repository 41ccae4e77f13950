//! The decisions of a monitor for Codex usage windows.
//!
//! Text and time: [`text`], [`time`], [`calendar`], [`names`].
//!
//! What a terminal shows: [`terminal`], [`card`], [`reset`], [`codex`].
//!
//! What is done with Codex: [`accounts`], [`session`], [`interaction`].
//!
//! What is reported: [`markup`], [`sections`], [`split`], [`packing`], [`intact`],
//! [`status_image`], [`discord`].
//!
//! How the program runs: [`options`], [`config`], [`scheduler`], [`cycle`].

pub mod accounts;
pub mod calendar;
pub mod card;
pub mod codex;
pub mod config;
pub mod cycle;
pub mod discord;
pub mod intact;
pub mod interaction;
pub mod markup;
pub mod names;
pub mod options;
pub mod packing;
pub mod reset;
pub mod scheduler;
pub mod sections;
pub mod session;
pub mod split;
pub mod status_image;
pub mod terminal;
pub mod text;
pub mod time;
