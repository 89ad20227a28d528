pub mod text;
pub mod vars;
pub mod protocol;
pub mod metrics;
pub mod http;
pub mod cli;
pub mod host;
