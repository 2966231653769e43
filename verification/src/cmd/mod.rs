//! The commands of `hmm`: what each needs, and what it decides from what it
//! finds.

pub mod apply;
pub mod diff;
pub mod ls;
pub mod merge;
pub mod rm;
pub mod run;
