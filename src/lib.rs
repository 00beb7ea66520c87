//! Derives short formatted passwords from a name, an email and a site: configuration
//! is resolved from key-value text sources and a configuration file, then a digest of
//! the identity is cut, ended and partly upper-cased.

pub mod text;
pub mod digest;
pub mod config;
pub mod lines;
pub mod password;
pub mod util;
pub mod platform;
pub mod output;
