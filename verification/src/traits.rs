//! The mode interface: every quiz mode presents a title and a subtitle,
//! runs the set once, and runs the whole session. Implementations live in
//! the console adapters, which drive the verified session state machine.

use vstd::prelude::*;

use crate::errors::AskmeError;
use crate::types::AskmeSet;

verus! {

/// One quiz mode over settings `S`, reporting a result `R`.
pub trait AskmeMode<S, R> {
    /// The rendered title banner.
    fn get_title(&self) -> String;

    /// The rendered subtitle line.
    fn get_subtitle(&self) -> String;

    /// Builds the mode over a loaded set.
    fn new(set: AskmeSet, settings: S) -> Self where Self: core::marker::Sized;

    /// Presents every question of the set once.
    fn run_set(&mut self);

    /// Runs the whole session and reports its result.
    fn run(&mut self) -> Result<R, &'static str>;
}

/// Loading a question set out of a named file.
pub trait FromSetFile {
    /// Reads and parses the named file into a question set.
    fn from_file(file_name: &str) -> Result<AskmeSet, AskmeError>;
}

} // verus!
