//! A library for declarative text substitution over files.
//!
//! A [`rules::Config`] holds a set of substitution rules (exact substrings or
//! regular expressions) together with traversal flags. The engine applies the
//! rules to one text buffer; the selector decides which files of a tree take
//! part; the processor plans, for one file, what is written where under the
//! dry-run, backup and interactive modes.

pub mod engine;
pub mod processor;
pub mod rules;
pub mod selector;
pub mod wire;

pub use engine::replace_strings;
pub use rules::Config;
pub use rules::ProcessingError;
pub use rules::Replacement;
pub use rules::RuleSet;
