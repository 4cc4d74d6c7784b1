//! What holds of a download as a whole.

pub mod agreement;
pub mod contents;
pub mod course;
pub mod outcome;
pub mod protocol;
pub mod size;
pub mod story;
