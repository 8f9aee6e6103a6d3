//! Verified core of a video downloader: URL parsing, option building, size formatting and
//! parsing of an external downloader's output.
pub mod config;
pub mod download;
pub mod error;
pub mod extension;
pub mod fetch;
pub mod file_size;
pub mod models;
pub mod text;
pub mod url;
pub mod wrapper;

pub use config::{Config, RawCliArgs};
pub use error::{ConfigError, YouDlError};
pub use extension::get_file_extension;
pub use file_size::format_file_size;
pub use models::{
    DownloadOption, DownloadOptions, Format, PlayerResponse, StreamingData, VideoDetails,
};
pub use url::extract_video_id;
pub use wrapper::FileFormat;
