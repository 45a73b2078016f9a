pub mod amount;
pub mod app;
pub mod bigdecimal;
pub mod binary64;
pub mod cache;
pub mod client;
pub mod config;
pub mod dashboard;
pub mod format;
pub mod history;
pub mod model;
pub mod refresh;
pub mod text;
pub mod ui;
pub mod session;
