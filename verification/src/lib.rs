//! The rules of a small desktop toolbox, verified.
//!
//! The heart of the crate is the acquisition of a directory, or of a whole
//! repository, from a Git forge. It is written as a state machine: the
//! [`engine`] decides each step, and its caller performs the requests and
//! writes the files. What a step does is stated in [`transition`]; the rules
//! it draws on are in [`lister`], [`archive`], [`layout`] and [`progress`].
//! What holds of every acquisition is proved in [`laws`], [`strategy`],
//! [`cancellation`], [`batch`], [`confinement`], [`extraction`], [`tree`]
//! and [`repetition`].
//!
//! The other modules hold the rules of the toolbox's smaller tools: reading
//! the output of `ffmpeg`, `yt-dlp`, `ss` and `netstat`, building their
//! arguments, naming languages, and parsing hotkeys.

// The acquisition.
pub mod archive;
pub mod engine;
pub mod layout;
pub mod lister;
pub mod messages;
pub mod model;
pub mod progress;
pub mod transition;

// What holds of every acquisition.
pub mod batch;
pub mod cancellation;
pub mod confinement;
pub mod extraction;
pub mod laws;
pub mod repetition;
pub mod strategy;
pub mod tree;

// The smaller tools.
pub mod desktop;
pub mod media;
pub mod ports;
pub mod settings;
pub mod startup;
pub mod translate;
pub mod youtube;

// Text and numbers.
pub mod number;
pub mod scan;
pub mod text;
pub mod unicode;
