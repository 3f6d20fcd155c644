//! A live weather-station feed, polled around each station's own cadence.

pub mod cli;
pub mod content;
pub mod feed;
pub mod json;
pub mod laws;
pub mod model;
pub mod numeral;
pub mod order;
pub mod record;
pub mod render;
pub mod schedule;
pub mod seen;
pub mod slots;
pub mod source;
pub mod text;
pub mod time;
pub mod watch;
