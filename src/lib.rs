//! A multiple-choice quiz whose learner must answer each question correctly
//! before moving on, with progress that survives between runs.
//!
//! The question bank and the progress record are plain values here; reading
//! and writing them, and talking to the learner, is left to the caller, which
//! stores the progress after every `Correct` or `Incorrect` outcome and after
//! `complete`.

pub mod input;
pub mod progress;
pub mod question;
pub mod quiz;
pub mod replay;
