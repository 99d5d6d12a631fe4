//! A code-quality engine: it evaluates a declarative rule set against source
//! files and reports what it finds, ranked by severity.
//!
//! The pattern engine compiles rules into matchers, textual and structural, and
//! evaluates them against one file. The path filter decides which files are
//! candidates for analysis. The file cache decides whether a prior result is
//! still valid. Reading files, parsing them and writing reports is left to the
//! caller: the library takes texts, syntax trees and file metadata, and hands
//! back matches, violations and decisions.

pub mod analyzer;
pub mod bindings;
pub mod cache;
pub mod config;
pub mod domain;
pub mod numerals;
pub mod ordering;
pub mod paths;
pub mod patterns;
pub mod report;
pub mod syntax;
pub mod text;
pub mod textlines;
pub mod validator;

pub use crate::analyzer::{AnalysisOptions, Analyzer, PatternStats};
pub use crate::cache::{CacheStatistics, FileCache};
pub use crate::config::{GuardianConfig, PatternCategory, PatternRule, RuleType};
pub use crate::domain::violations::{
    GuardianError, Severity, ValidationReport, ValidationSummary, Violation,
};
pub use crate::report::{OutputFormat, ReportFormatter, ReportOptions};
pub use crate::validator::{create_validator, GuardianValidator, ValidationOptions};
