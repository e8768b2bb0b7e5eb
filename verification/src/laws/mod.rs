//! What holds of the editor as a whole.

pub mod clock;
pub mod commands;
pub mod composing;
pub mod drawing;
pub mod editing;
pub mod edits;
pub mod files;
pub mod moving;
pub mod naming;
pub mod prompting;
pub mod quitting;
pub mod rendering;
pub mod searching;
pub mod session;
pub mod soundness;
pub mod starting;
pub mod steps;
pub mod texts;
