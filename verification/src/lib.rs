//! An interpreter for a tiny combinator language: named definitions are
//! compiled from token streams into expression graphs and reduced lazily to
//! weak-head-normal-form, with a binary codec for exchanging numbers and
//! nested lists as bitstreams, and a picture model for rendering point lists.

pub mod eval;
pub mod laws;
pub mod modem;
pub mod picture;
pub mod syntax;
