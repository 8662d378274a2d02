//! Core of a Wordle-style guess assistant.
//!
//! A session keeps a bounded, ordered history of guesses, each letter of a
//! guess annotated with feedback. From the whole history an aggregate set of
//! constraints is recomputed on demand, and a matcher tests candidate words
//! against those constraints, so a dictionary can be narrowed to the words
//! still consistent with everything seen so far.

pub mod aggregate;
pub mod guess;
pub mod laws;
pub mod matcher;
