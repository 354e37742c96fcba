//! Frame Inspector: a small verified library around low-level stack
//! inspection and two tiny command-line utilities.
//!
//! The heart is [`walker`]: walking a saved-frame-pointer chain over a
//! modelled stack image, with proofs that the walk is bounded, consistent on
//! well-formed chains, and stops at the first corrupted hop. Reading the live
//! machine registers themselves takes inline assembly, which Verus cannot
//! check; those one-line probes live in the surrounding application and feed
//! their plain word values into this library.
//!
//! The remaining modules hold the pure parts of the utilities: counting
//! lines, words and characters ([`wordcount`]), laying the counts out as
//! tab-separated rows ([`render`]), building a greeting ([`greeting`]), and
//! the arithmetic of the call-overhead demonstration ([`demo`]).

pub mod demo;
pub mod greeting;
pub mod render;
pub mod walker;
pub mod wordcount;
