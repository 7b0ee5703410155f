pub mod text;
pub mod models;
pub mod responses;
pub mod timestamp;
pub mod records;
pub mod config_store;
pub mod job_logs;
pub mod csv_preview;
pub mod pipeline;
pub mod json;
pub mod datastreams;
pub mod hydroserver;
pub mod uploader;
pub mod daemon_launcher;
pub mod service_paths;
pub mod runtime;
pub mod service;
pub mod daemon_api;
pub mod logging;
pub mod state_files;
pub mod commands;
