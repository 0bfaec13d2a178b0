//! Alarms that can wait until a game is over.
use vstd::prelude::*;

pub mod alarm;
pub mod app;
pub mod app_laws;
pub mod app_model;
pub mod counter_strike;
pub mod crash;
pub mod discord_bridge;
pub mod game;
pub mod gsi_request;
pub mod http;
pub mod json;
pub mod league;
pub mod models;
pub mod notifier;
pub mod order;
pub mod pages;
pub mod paths;
pub mod requesters;
pub mod seqs;
pub mod sound;
pub mod storage;
pub mod text;
pub mod theme;
pub mod time;
pub mod worker;

verus! {

/// The name under which the application presents itself.
pub const APP_NAME: &'static str = "Alarm at Game End";

} // verus!
