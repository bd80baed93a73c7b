//! Verified core of the voice-recorder synchronisation and summarisation service.
pub mod text;
pub mod errors;
pub mod models;
pub mod config;
pub mod providers;
pub mod jobs;
pub mod reports;
pub mod ingestion;
pub mod device;
pub mod db;
pub mod commands;
