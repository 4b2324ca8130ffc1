//! The minimal surface a command-line host needs.

pub use crate::theme::{SelectorStyles, State};
