//! The error taxonomy: malformed lexical input, a grammar violation carrying
//! the offending token, or a failure during evaluation. No error is recovered
//! inside the library; each aborts the current run and is handed back whole.

use vstd::prelude::*;
use vstd::string::StringExecFns;

use crate::text::{format_usize, spec_decimal};
use crate::token::Token;

verus! {

/// What went wrong, with its human-readable context.
#[derive(Debug)]
pub enum ErrorKind {
    /// Malformed lexical input: an unexpected character, an unterminated
    /// string. Carries the line it was found on.
    ScannerError { line: usize, message: String },
    /// A grammar violation. `token` is the offending token, or `None` when
    /// the input ran out where a token was required.
    ParserError { token: Option<Token>, message: String },
    /// A value-operation failure, an undefined variable, or an exhausted
    /// evaluation budget.
    RuntimeError { message: String },
}

/// An error of any stage of the pipeline.
#[derive(Debug)]
pub struct Error {
    pub kind: ErrorKind,
}

/// The message an error carries.
pub open spec fn spec_message(k: ErrorKind) -> Seq<char> {
    match k {
        ErrorKind::ScannerError { message, .. } => message@,
        ErrorKind::ParserError { message, .. } => message@,
        ErrorKind::RuntimeError { message } => message@,
    }
}

/// The error is a runtime failure carrying exactly this message.
pub open spec fn is_runtime_error(e: Error, message: Seq<char>) -> bool {
    e.kind is RuntimeError && spec_message(e.kind) == message
}

/// The rendering of an error as one line of text.
pub open spec fn spec_describe(e: Error) -> Seq<char> {
    match e.kind {
        ErrorKind::ScannerError { line, message } => "Error: "@ + message@ + " in "@
            + spec_decimal(line as nat),
        ErrorKind::ParserError { token, message } => match token {
            Some(t) => "Error: "@ + message@ + " at '"@ + t.spec_text() + "' in "@ + spec_decimal(
                t.line as nat,
            ),
            None => "Error: "@ + message@,
        },
        ErrorKind::RuntimeError { message } => "Error: "@ + message@,
    }
}

impl Error {
    pub fn new(kind: ErrorKind) -> (e: Error)
        ensures
            e.kind == kind,
    {
        Error { kind }
    }

    /// A runtime error with the given message.
    pub fn runtime(message: String) -> (e: Error)
        ensures
            is_runtime_error(e, message@),
    {
        Error { kind: ErrorKind::RuntimeError { message } }
    }

    /// One line of text describing the error.
    pub fn describe(&self) -> (r: String)
        ensures
            r@ == spec_describe(*self),
    {
        match &self.kind {
            ErrorKind::ScannerError { line, message } => {
                let mut r = String::from_str("Error: ");
                r.append(message.as_str());
                r.append(" in ");
                let line_text = format_usize(*line);
                r.append(line_text.as_str());
                r
            },
            ErrorKind::ParserError { token, message } => {
                match token {
                    Some(t) => {
                        let mut r = String::from_str("Error: ");
                        r.append(message.as_str());
                        r.append(" at '");
                        let token_text = t.text();
                        r.append(token_text.as_str());
                        r.append("' in ");
                        let line_text = format_usize(t.line);
                        r.append(line_text.as_str());
                        r
                    },
                    None => {
                        let mut r = String::from_str("Error: ");
                        r.append(message.as_str());
                        r
                    },
                }
            },
            ErrorKind::RuntimeError { message } => {
                let mut r = String::from_str("Error: ");
                r.append(message.as_str());
                r
            },
        }
    }
}

} // verus!
