//! Writes the image files of a system on a chip to its flash.
//!
//! An image file is an archive with a project description and the contents of the
//! partitions. [`download`] decides what is to be done with it and in which order: it is
//! asked what to do next and told what came of it, and whoever asks reads the archive and
//! talks to the device. [`plan`] lays out the steps, [`laws`] states what holds of a
//! download as a whole.
pub mod buffer;
pub mod config;
pub mod download;
pub mod error;
pub mod file;
pub mod gui;
pub mod laws;
pub mod partition;
pub mod plan;
pub mod progress;
pub mod text;
pub mod transport;

pub use config::DownloadConfig;
pub use download::download_image;
pub use download::download_image_async;
pub use error::AxdlError;
pub use progress::DownloadProgress;
