//! A hunting assistant for a game's refreshable shop: the refresh-loop
//! controller, the interest filter it hunts with, and the rules around them.

pub mod domain;
pub mod doubles;
pub mod error;
pub mod gui;
pub mod http;
pub mod input;
pub mod install;
pub mod journal;
pub mod layout;
pub mod level;
pub mod migrate;
pub mod notifications;
pub mod numbers;
pub mod startup;
pub mod text;
