//! A terminal feed reader's core: posts gathered from Telegram channels, RSS feeds and
//! Hacker News, the order in which they are shown, the record of what was already seen,
//! and the state machine behind the reader's screens.

pub mod app;
pub mod config;
pub mod cooldown;
pub mod hn;
pub mod pipeline;
pub mod playtime;
pub mod post;
pub mod rss;
pub mod scan;
pub mod sort;
pub mod state;
pub mod telegram;
pub mod text;
pub mod theme;
pub mod ui;
