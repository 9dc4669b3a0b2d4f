//! The core of a monitor brightness panel: a small window with one slider per
//! physical monitor, driven by mouse messages and a global hot key.
//!
//! Everything the panel decides or computes is here, with contracts: slider
//! geometry and hit testing, what is painted, how the window answers messages,
//! how probed monitors become sliders, how queued brightness values are
//! coalesced, and how the program registers itself to run at logon. Talking to
//! the operating system is left to the application.
pub mod arith;
pub mod checks;
pub mod geometry;
pub mod laws;
pub mod monitor;
pub mod paint;
pub mod startup;
pub mod text;
pub mod window;
pub mod worker;
