//! The decisions of a pair of companion processes that keep each other alive, and of the usage
//! tracker that one of them runs.
//!
//! The library asks the system for nothing. It takes what a program has found out, as numbers,
//! texts and code units, and says what follows from it:
//!
//! - [`watchdog`]: when the companion is to be started again;
//! - [`process`]: which processes are running, and under what names;
//! - [`config`] and [`config_layout`]: what the configuration file says, and how it is laid out;
//! - [`activity`]: how long the user was active, and whether that or the hour calls for
//!   restrictions;
//! - [`window`]: which windows are the system's, and which came to the foreground;
//! - [`lockout`]: which window is covered while the user is restricted;
//! - [`registry`]: how the entries that start the tracker are repaired;
//! - [`text`] and [`utf16`]: characters and code units.

pub mod activity;
pub mod config;
pub mod config_layout;
pub mod lockout;
pub mod process;
pub mod registry;
pub mod text;
pub mod utf16;
pub mod watchdog;
pub mod window;
