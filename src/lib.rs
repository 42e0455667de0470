pub mod error;
pub mod handler;
pub mod host;
pub mod relay;
pub mod tls;
