//! Errors of code block processing.

use vstd::prelude::*;
use crate::strutil::{append_chars, chars_string, str_chars, usize_to_chars};

verus! {

/// What can go wrong while bookkeeping executable code blocks.
#[derive(Debug, Clone, PartialEq)]
pub enum CodeError {
    DirectiveParseError(String),
    DuplicateId { id: String, line: usize, previous_line: usize },
    DuplicateOutputId { id: String, line: usize, previous_line: usize },
    MissingField { line: usize, field: String },
    EmptyBin { line: usize },
    ExecutionFailed(String),
    ProcessError(String),
    Timeout { seconds: u64 },
    IoError(String),
}

impl CodeError {
    pub fn duplicate_id(id: String, line: usize, previous_line: usize) -> (r: CodeError)
        ensures
            r == (CodeError::DuplicateId { id, line, previous_line }),
    {
        CodeError::DuplicateId { id, line, previous_line }
    }

    pub fn duplicate_output_id(id: String, line: usize, previous_line: usize) -> (r: CodeError)
        ensures
            r == (CodeError::DuplicateOutputId { id, line, previous_line }),
    {
        CodeError::DuplicateOutputId { id, line, previous_line }
    }

    pub fn missing_field(line: usize, field: String) -> (r: CodeError)
        ensures
            r == (CodeError::MissingField { line, field }),
    {
        CodeError::MissingField { line, field }
    }

    /// The rendered message of the error.
    pub fn message(&self) -> (r: String)
    {
        let mut out: Vec<char> = Vec::new();
        match self {
            CodeError::DirectiveParseError(s) => {
                let p = str_chars("Failed to parse md-code directive: ");
                append_chars(&mut out, &p);
                let t = str_chars(s.as_str());
                append_chars(&mut out, &t);
            },
            CodeError::DuplicateId { id, line, previous_line } => {
                let p = str_chars("Duplicate code block ID '");
                append_chars(&mut out, &p);
                let t = str_chars(id.as_str());
                append_chars(&mut out, &t);
                let q = str_chars("' found at line ");
                append_chars(&mut out, &q);
                let l = usize_to_chars(*line);
                append_chars(&mut out, &l);
                let u = str_chars(" (previously defined at line ");
                append_chars(&mut out, &u);
                let pl = usize_to_chars(*previous_line);
                append_chars(&mut out, &pl);
                out.push(')');
            },
            CodeError::DuplicateOutputId { id, line, previous_line } => {
                let p = str_chars("Duplicate output block ID '");
                append_chars(&mut out, &p);
                let t = str_chars(id.as_str());
                append_chars(&mut out, &t);
                let q = str_chars("' found at line ");
                append_chars(&mut out, &q);
                let l = usize_to_chars(*line);
                append_chars(&mut out, &l);
                let u = str_chars(" (previously defined at line ");
                append_chars(&mut out, &u);
                let pl = usize_to_chars(*previous_line);
                append_chars(&mut out, &pl);
                out.push(')');
            },
            CodeError::MissingField { line, field } => {
                let p = str_chars("Code block at line ");
                append_chars(&mut out, &p);
                let l = usize_to_chars(*line);
                append_chars(&mut out, &l);
                let q = str_chars(" is missing required field: ");
                append_chars(&mut out, &q);
                let t = str_chars(field.as_str());
                append_chars(&mut out, &t);
            },
            CodeError::EmptyBin { line } => {
                let p = str_chars("Empty bin specification at line ");
                append_chars(&mut out, &p);
                let l = usize_to_chars(*line);
                append_chars(&mut out, &l);
            },
            CodeError::ExecutionFailed(s) => {
                let p = str_chars("Code execution failed: ");
                append_chars(&mut out, &p);
                let t = str_chars(s.as_str());
                append_chars(&mut out, &t);
            },
            CodeError::ProcessError(s) => {
                let p = str_chars("Process execution failed: ");
                append_chars(&mut out, &p);
                let t = str_chars(s.as_str());
                append_chars(&mut out, &t);
            },
            CodeError::Timeout { seconds } => {
                let p = str_chars("Code execution timed out after ");
                append_chars(&mut out, &p);
                let mut s64: u64 = *seconds;
                let s_us: usize = if s64 > usize::MAX as u64 {
                    usize::MAX
                } else {
                    s64 as usize
                };
                let l = usize_to_chars(s_us);
                append_chars(&mut out, &l);
                let q = str_chars(" seconds");
                append_chars(&mut out, &q);
            },
            CodeError::IoError(s) => {
                let p = str_chars("I/O error: ");
                append_chars(&mut out, &p);
                let t = str_chars(s.as_str());
                append_chars(&mut out, &t);
            },
        }
        chars_string(&out)
    }
}

/// What running one code block produced.
#[derive(Debug, Clone, PartialEq)]
pub struct ExecutionResult {
    pub success: bool,
    pub output: String,
}

} // verus!
