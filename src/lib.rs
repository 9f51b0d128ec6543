//! Repository index, status model and interactive navigation state.
pub mod error;
pub mod text;
pub mod repo;
pub mod scan;
pub mod args;
pub mod utils;
pub mod input;
pub mod repoview;
pub mod screen;
pub mod repoitem;
pub mod sorting;
