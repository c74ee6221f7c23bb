//! Signature matching, OCR text extraction and data handling for a mining
//! scanner companion tool.

pub mod capture;
pub mod data;
pub mod database_update;
pub mod enrichment;
pub mod event_log;
pub mod hotkeys;
pub mod live_scan;
pub mod matcher;
pub mod models;
pub mod native_window;
pub mod ocr;
pub mod order;
pub mod provider_cache;
pub mod report;
pub mod scanner;
pub mod text;
pub mod tray;
