//! menial/2, a small static-file web server: reading requests, answering
//! them, and reading the server's configuration.
pub mod text;
pub mod request;
pub mod clock;
pub mod digest;
pub mod codec;
pub mod yaml;
pub mod table;
pub mod config;
pub mod auth;
pub mod utils;
pub mod ports;
pub mod server;
