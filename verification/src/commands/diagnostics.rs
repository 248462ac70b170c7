//! Structured diagnostics that the commands attach to their output.

use vstd::prelude::*;
use crate::json::Json;

verus! {

/// How serious a diagnostic is.
#[derive(Debug, Clone, Copy, PartialEq, Eq, Structural)]
pub enum DiagnosticLevel {
    Error,
    Warning,
    Info,
}

/// A diagnostic as the commands report it.
#[derive(Debug)]
pub struct Diagnostic {
    pub level: DiagnosticLevel,
    pub code: Option<String>,
    pub message: String,
    pub file: Option<String>,
    pub line: Option<u32>,
    pub suggestion: Option<String>,
    /// Structured details for machine readers.
    pub context: Option<Json>,
}

impl Diagnostic {
    /// A warning with `message` and nothing else set.
    pub fn warning(message: String) -> (d: Diagnostic)
        ensures
            d.level == DiagnosticLevel::Warning,
            d.code is None,
            d.message == message,
            d.file is None,
            d.line is None,
            d.suggestion is None,
            d.context is None,
    {
        Diagnostic {
            level: DiagnosticLevel::Warning,
            code: None,
            message,
            file: None,
            line: None,
            suggestion: None,
            context: None,
        }
    }

    /// The same diagnostic with its code set to `code`.
    pub fn with_code(self, code: &str) -> (d: Diagnostic)
        ensures
            d.level == self.level,
            d.code matches Some(c) && c@ == code@,
            d.message == self.message,
            d.file == self.file,
            d.line == self.line,
            d.suggestion == self.suggestion,
            d.context == self.context,
    {
        Diagnostic { code: Some(String::from_str(code)), ..self }
    }

    /// The same diagnostic with its suggestion set to `suggestion`.
    pub fn with_suggestion(self, suggestion: String) -> (d: Diagnostic)
        ensures
            d.level == self.level,
            d.code == self.code,
            d.message == self.message,
            d.file == self.file,
            d.line == self.line,
            d.suggestion == Some(suggestion),
            d.context == self.context,
    {
        Diagnostic { suggestion: Some(suggestion), ..self }
    }

    /// The same diagnostic with its context set to `context`.
    pub fn with_context(self, context: Json) -> (d: Diagnostic)
        ensures
            d.level == self.level,
            d.code == self.code,
            d.message == self.message,
            d.file == self.file,
            d.line == self.line,
            d.suggestion == self.suggestion,
            d.context == Some(context),
    {
        Diagnostic { context: Some(context), ..self }
    }
}

} // verus!
