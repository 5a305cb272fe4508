//! Decision logic of a small service that shuts the machine down when an
//! authorized `POST /shutdown` request arrives.
pub mod bytes;
pub mod http;
pub mod request;
pub mod config;
pub mod handler;
pub mod logfile;
pub mod service;
pub mod server_loop;
