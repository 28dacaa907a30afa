//! Time-driven animations for an addressable LED strip.
//!
//! A [`pattern::Pattern`] paints its own pixel buffer once per logical tick.
//! The [`manager::PatternManager`] turns elapsed time into ticks, replays every
//! tick that was missed, and blends the buffers of all active patterns into
//! one frame for the strip. The [`runner::Runner`] decides what each wake-up
//! of the scheduler does.
//!
//! The library reads no clock and drives no hardware: its caller hands it
//! the time, and takes the frame to the strip.

pub mod pattern;
pub mod solid;
pub mod gradient;
pub mod crawl;
pub mod rainbow;
pub mod random;
pub mod fade;
pub mod any;
pub mod composite;
pub mod manager;
pub mod runner;
pub mod command;
