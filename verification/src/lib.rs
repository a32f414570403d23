//! Session logic of a photo-editing warm-up companion: the settings and their
//! merge with the built-in challenge list, the rules that pick and check RAW
//! files, the step-by-step session state machine, and the history log.
//!
//! Paths travel through the library as text; everything that touches the disk,
//! the clock, the window or other processes lives in the application around it.

pub mod text;
pub mod paths;
pub mod settings;
pub mod random;
pub mod session;
pub mod history;
pub mod picking;
pub mod exports;
