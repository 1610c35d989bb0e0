//! Batch denoising of WAV trees: every decision of a run, and none of its
//! effects.
//!
//! A run walks an input tree, takes up each regular file named `*.wav`,
//! passes over those that are not mono 16-bit audio at 16 kHz, and has every
//! other one denoised into the same place under an output tree, by a remote
//! worker, a pool of them, or a local program.
//!
//! Nothing here touches the file system, the network or a child process.
//! `setup` and `driver` are state machines: they are told what happened and
//! answer with the one thing to do next. `audio` holds the format rule,
//! `paths` the filename filter and the mirror between the two trees,
//! `dispatch` the backends, and `run` what holds of every run as a whole.

pub mod audio;
pub mod dispatch;
pub mod driver;
pub mod paths;
pub mod run;
pub mod setup;
pub mod text;
