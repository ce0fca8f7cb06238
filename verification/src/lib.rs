//! Verified core of an image-board subscription downloader.

pub mod text;
pub mod sanitize;
pub mod model;
pub mod error;
pub mod retry;
pub mod downloader;
pub mod job;
pub mod moebooru;
pub mod config;
pub mod commands;
pub mod session;
