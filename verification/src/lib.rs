//! Declarative MCP server manager: services defined in a configuration run in
//! Docker containers, with secrets from AWS SSM Parameter Store passed to
//! them as environment variables.
//!
//! The library holds the configuration, container, lifecycle, secret and
//! bridge logic; the program around it performs the file, process,
//! socket and Docker work that this logic asks for.
pub mod text;
pub mod strmap;
pub mod config;
pub mod docker;
pub mod lifecycle;
pub mod secrets;
pub mod bridge;
pub mod pipe;
