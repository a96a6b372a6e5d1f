//! The verified core of a dashboard for many SSH sessions with an SFTP file browser.
pub mod dashboard;
pub mod file_browser;
pub mod listing;
pub mod metrics;
pub mod order;
pub mod paths;
pub mod session;
pub mod size_text;
pub mod text;
