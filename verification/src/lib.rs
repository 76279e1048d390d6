//! CrackLeaf: the session, animation and worker rules of a small desktop tool
//! that strips owner restrictions from PDF files by running `qpdf`.
//!
//! The library holds every decision the tool makes; the program around it
//! draws the window, runs `qpdf` and moves files.

pub mod animation;
pub mod entry;
pub mod naming;
pub mod platform;
pub mod probe;
pub mod reachable;
pub mod session;
pub mod text;
pub mod worker;
