//! Verified core of the AgentGIF command-line client.
//!
//! The library holds every decision the client makes without touching the
//! network, the disk or the terminal: how queries are percent-encoded, which
//! request each API call sends, how a server reply becomes a value or an
//! error, what the commands print from the replies, how stored credentials
//! change, and the polling rules of the login and generation flows.  A thin
//! program around it performs the I/O and prints the counts the server
//! sends, which it reads as floating-point numbers.
pub mod text;
pub mod urlenc;
pub mod params;
pub mod json;
pub mod config;
pub mod paths;
pub mod client;
pub mod cli;
pub mod report;

pub use client::{ApiError, Client, DEFAULT_BASE_URL};
pub use config::{Config, clear_credentials, config_dir, config_path, get_api_key, save_credentials};
pub use urlenc::urlencoding;
