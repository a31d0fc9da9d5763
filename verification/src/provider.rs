//! The collection of providers that collect arguments from the commonly used
//! sources: command-line flags, environment variables, and fixed test data.

mod cli;
pub use cli::Cli;

mod envs;
pub use envs::Env;

mod fixed;
pub use fixed::Fixed;
