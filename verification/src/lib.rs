//! A terminal text editor, split into the verified editing core and the thin
//! program that talks to the terminal and the file system.

pub mod ansi;
pub mod columns;
pub mod contents;
pub mod cursor;
pub mod editor;
pub mod keys;
pub mod laws;
pub mod lines;
pub mod output;
pub mod paths;
pub mod row;
pub mod rows;
pub mod screen;
pub mod status;
pub mod text;
