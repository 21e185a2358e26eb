//! A catalog of application packages: what each package file holds, when it
//! was built, how it is shown, and the manifest from which a device installs
//! it.

pub mod app;
pub mod archive;
pub mod catalog;
pub mod descriptor;
pub mod error;
pub mod icon;
pub mod manifest;
pub mod request;
pub mod storage;
pub mod text;
pub mod timestamp;
pub mod watcher;

pub use app::App;
pub use error::Error;
pub use storage::AppsStorage;
