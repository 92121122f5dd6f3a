//! Diagnostic value types shared with the language server layer.
use vstd::prelude::*;

verus! {

/// The severity of a diagnostic, from the least to the most urgent.
#[derive(Debug, Clone, Copy, PartialEq, Eq, Structural, PartialOrd, Ord)]
pub enum Severity {
    Hint,
    Info,
    Warning,
    Error,
}

impl Default for Severity {
    fn default() -> (r: Self)
        ensures
            r == Severity::Hint,
    {
        Severity::Hint
    }
}

/// A range of `char`s within the text.
#[derive(Debug, Clone, Copy, PartialEq, Eq, Structural, PartialOrd, Ord)]
pub struct Range {
    pub start: usize,
    pub end: usize,
}

/// A diagnostic code, which servers send either as a number or as a string.
#[derive(Debug, Clone, PartialEq, Eq, Hash)]
pub enum NumberOrString {
    Number(i32),
    String(String),
}

/// Extra tags a server may attach to a diagnostic.
#[derive(Debug, Clone, Copy, PartialEq, Eq, Structural)]
pub enum DiagnosticTag {
    Unnecessary,
    Deprecated,
}

/// The JSON value type of serde_json, carried through unchanged.
#[verifier::external_type_specification]
#[verifier::external_body]
pub struct ExJsonValue(serde_json::Value);

/// A diagnostic as reported by a language server.
pub struct Diagnostic {
    pub range: Range,
    /// Whether the diagnostic ends at the end of (or inside) a word.
    pub ends_at_word: bool,
    pub starts_at_word: bool,
    pub zero_width: bool,
    pub line: usize,
    pub message: String,
    pub severity: Option<Severity>,
    pub code: Option<NumberOrString>,
    pub provider: DiagnosticProvider,
    pub tags: Vec<DiagnosticTag>,
    pub source: Option<String>,
    /// Server data that is handed back to the server unchanged.
    pub data: Option<serde_json::Value>,
}

/// The language server a diagnostic came from.
pub type DiagnosticProvider = LanguageServerId;

/// The identifier of a language server (a provider of completions).
#[derive(Debug, Clone, Copy, PartialEq, Eq, Structural, PartialOrd, Ord, Hash)]
pub struct LanguageServerId(pub u32);

impl LanguageServerId {
    pub fn new(id: u32) -> (r: LanguageServerId)
        ensures
            r.0 == id,
    {
        LanguageServerId(id)
    }

    pub fn id(self) -> (r: u32)
        ensures
            r == self.0,
    {
        self.0
    }
}

} // verus!
