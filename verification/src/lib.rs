//! Verified core of a multi-platform video publishing manager.
//!
//! The library holds the logic of the manager: text measurement and
//! truncation, a JSON value model (read and written by serde_json), the request
//! signer used for uploads, rule based credential extraction, account and
//! publication models, and the response parsers of the platform API.
//! Input/output (HTTP, SQLite, the browser process) lives outside, in `app/`.

pub mod chars;
pub mod text;
pub mod numfmt;
pub mod json;
pub mod crypto;
pub mod signature_v4;
pub mod extractor_config;
pub mod model;
pub mod browser;
pub mod extractor_engine;
pub mod douyin_utils;
pub mod account_params;
pub mod douyin_auth;
pub mod douyin_client;
pub mod douyin_api;
pub mod publish_strategy;
pub mod video_upload;
pub mod vod_uploader;
pub mod commands;
pub mod platform;
pub mod comments;
pub mod comment_extractor;
pub mod douyin_browser;
pub mod publish_progress;
pub mod storage;
pub mod playwright_env;
