//! The application's configuration as plain data.  Reading and
//! parsing a configuration file happens outside the library; these
//! are the values it hands over.

use vstd::prelude::*;

verus! {

/// Settings of the application itself.
#[derive(Debug, Clone, Copy, PartialEq, Eq, Structural)]
pub struct ApplicationConfig {
    pub port: i32,
    pub page_size: i32,
}

/// Where to search.
#[derive(Debug)]
pub struct SearchConfig {
    pub address: String,
}

/// The whole configuration.
#[derive(Debug)]
pub struct Config {
    pub app: ApplicationConfig,
    pub search: SearchConfig,
}

} // verus!
