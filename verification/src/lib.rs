//! waveline: the verified core of a unified SoundCloud + Mixcloud terminal player.
use vstd::prelude::*;

pub mod model;
pub mod text;
pub mod app;
pub mod providers;
pub mod http;
pub mod json;
pub mod b64;
pub mod config;
pub mod ui;
pub mod theme;
pub mod audio;
pub mod mpris;
pub mod player;
pub mod frontend;

verus! {
} // verus!
