//! Core of a terminal dashboard for local git working copies.
//!
//! - `git_repo`: the repository record, and the rules of the directory scan.
//! - `probe`: what the output of the git commands stands for; the plans for
//!   fetching and cloning.
//! - `order`: the order of the repository list, and finding a record again
//!   by its path.
//! - `model`: the view state as a mathematical value, and the transitions of
//!   the view controller as functions on it.
//! - `app`: the view controller, which applies one event at a time and says
//!   what its surroundings have to do.
//! - `guarantees`: what holds of the transitions, proved from `model`.
//! - `event`: key presses and the reports of background units.
//! - `unit`: background units as state machines.
//! - `cache`, `config`: the cache of known working copies and the settings, as
//!   values.
//! - `ui`: what the dashboard shows, as text with a tone.
//! - `text`, `number`, `util`: text, decimal numbers and paths.
//!
//! The library does no input or output. The program around it reads the
//! terminal, runs git, walks directories and keeps the files; it hands the
//! library plain values and does what the library asks for.

pub mod app;
pub mod cache;
pub mod config;
pub mod event;
pub mod git_repo;
pub mod guarantees;
pub mod model;
pub mod number;
pub mod order;
pub mod probe;
pub mod text;
pub mod ui;
pub mod unit;
pub mod util;
