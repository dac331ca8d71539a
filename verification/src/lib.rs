//! Profiles of environment-variable definitions, and the decisions behind
//! the prompts that edit them.
//!
//! The library never touches a terminal or a file. A caller reads keys and
//! lines, hands them over as plain values, and gets back what to show next,
//! what was chosen, or the updated profile.

pub mod add;
pub mod cli;
pub mod config;
pub mod error;
pub mod keyed;
pub mod merge;
pub mod types;

pub use add::add;
pub use cli::Answer;
pub use cli::Choice;
pub use cli::Choices;
pub use cli::Key;
pub use error::handle_interrupt;
pub use error::Error;
pub use error::Exit;
pub use types::Config;
pub use types::Definition;
pub use types::EnvironmentVariable;
pub use types::Profile;
