//! Verified core of the Crambo desktop companion: the decisions, encodings and
//! message formats behind audio capture, meeting detection, token storage,
//! the tray, deep links, screenshots and the upload client.

pub mod text;
pub mod audio;
pub mod detector;
pub mod storage;
pub mod tray;
pub mod uploader;
pub mod deeplink;
pub mod screen;
