//! Emotion engine core: the integer and text logic of a VAD emotion model.
use vstd::prelude::*;

pub mod text;
pub mod dimension;
pub mod decay_schedule;
pub mod decay;
pub mod plutchik;
pub mod personality;
pub mod rumination;
pub mod history;
pub mod config;
pub mod prompt;
pub mod multi_agent;
pub mod persistence;
