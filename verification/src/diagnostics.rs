//! Diagnostic data: severities, labels, suggestions and the warnings that
//! checking produces. Suggestions never mutate source text; they describe a
//! replacement for an external apply step.

use vstd::prelude::*;
use vstd::string::StringExecFns;
use crate::wordize::Span;
use crate::wordize::Word;
use crate::parser::Atom;
use crate::parser::spec_file_id;
use crate::parser::spec_span;

verus! {

/// How severe a diagnostic is.
#[derive(Debug, Clone, Copy, PartialEq, Eq, Structural)]
pub enum Severity {
    /// Advisory: the script probably works, but something is off.
    Warning,
    /// Blocking: the script is malformed.
    Error,
}

/// A piece of code a diagnostic points at, with its own message.
pub struct Label {
    pub file_id: u32,
    pub span: Span,
    pub message: String,
}

/// Mathematical image of a [`Label`].
#[verifier::ext_equal]
pub ghost struct LabelV {
    pub file_id: u32,
    pub span: Span,
    pub message: Seq<char>,
}

impl View for Label {
    type V = LabelV;

    open spec fn view(&self) -> LabelV {
        LabelV { file_id: self.file_id, span: self.span, message: self.message@ }
    }
}

impl Label {
    pub fn new(file_id: u32, span: Span, message: String) -> (r: Label)
        ensures
            r@ == (LabelV { file_id, span, message: message@ }),
    {
        Label { file_id, span, message }
    }
}

/// One diagnostic: a severity, a primary label addressing the offending
/// code, an optional lint tag, and secondary labels pointing at related
/// code.
pub struct Diagnostic {
    pub severity: Severity,
    /// Name of the lint that emitted this diagnostic, if any.
    pub code: Option<String>,
    pub message: String,
    pub primary_label: Label,
    pub secondary_labels: Vec<Label>,
}

/// Mathematical image of a [`Diagnostic`].
#[verifier::ext_equal]
pub ghost struct DiagnosticV {
    pub severity: Severity,
    pub code: Option<Seq<char>>,
    pub message: Seq<char>,
    pub primary_label: LabelV,
    pub secondary_labels: Seq<LabelV>,
}

impl View for Diagnostic {
    type V = DiagnosticV;

    open spec fn view(&self) -> DiagnosticV {
        DiagnosticV {
            severity: self.severity,
            code: match &self.code {
                Some(c) => Some(c@),
                None => None,
            },
            message: self.message@,
            primary_label: self.primary_label@,
            secondary_labels: self.secondary_labels@.map_values(|l: Label| l@),
        }
    }
}

/// Whether and how a suggestion can be applied mechanically.
pub enum AutoFixReplacement {
    /// The suggestion describes the problem but offers no replacement text.
    NoFix,
    /// Replacement text that is safe to apply mechanically.
    Safe(Vec<u8>),
    /// Replacement text that needs manual review before applying.
    Unsafe(Vec<u8>),
}

/// Mathematical image of an [`AutoFixReplacement`].
#[verifier::ext_equal]
pub ghost enum AutoFixReplacementV {
    NoFix,
    Safe(Seq<u8>),
    Unsafe(Seq<u8>),
}

impl View for AutoFixReplacement {
    type V = AutoFixReplacementV;

    open spec fn view(&self) -> AutoFixReplacementV {
        match self {
            AutoFixReplacement::NoFix => AutoFixReplacementV::NoFix,
            AutoFixReplacement::Safe(s) => AutoFixReplacementV::Safe(s@),
            AutoFixReplacement::Unsafe(s) => AutoFixReplacementV::Unsafe(s@),
        }
    }
}

impl AutoFixReplacement {
    /// Is this suggestion safe to apply mechanically?
    pub fn is_fixable(&self) -> (r: bool)
        ensures
            r == (self@ is Safe),
    {
        match self {
            AutoFixReplacement::Safe(_) => true,
            _ => false,
        }
    }

    /// Does this suggestion carry any replacement at all, even one that
    /// needs manual review?
    pub fn is_fixable_unsafe(&self) -> (r: bool)
        ensures
            r == !(self@ is NoFix),
    {
        match self {
            AutoFixReplacement::NoFix => false,
            _ => true,
        }
    }
}

/// A suggestion that may fix a warning: a target span, a message, and a
/// replacement policy.
pub struct Suggestion {
    file_id: u32,
    span: Span,
    message: String,
    replacement: AutoFixReplacement,
}

/// Mathematical image of a [`Suggestion`].
#[verifier::ext_equal]
pub ghost struct SuggestionV {
    pub file_id: u32,
    pub span: Span,
    pub message: Seq<char>,
    pub replacement: AutoFixReplacementV,
}

impl View for Suggestion {
    type V = SuggestionV;

    closed spec fn view(&self) -> SuggestionV {
        SuggestionV {
            file_id: self.file_id,
            span: self.span,
            message: self.message@,
            replacement: self.replacement@,
        }
    }
}

impl Suggestion {
    /// The file this suggestion would update.
    pub fn file_id(&self) -> (r: u32)
        ensures
            r == self@.file_id,
    {
        self.file_id
    }

    /// The span this suggestion applies to.
    pub fn span(&self) -> (r: Span)
        ensures
            r == self@.span,
    {
        self.span
    }

    /// The starting position this suggestion applies to.
    pub fn start(&self) -> (r: usize)
        ensures
            r == self@.span.start,
    {
        self.span.start
    }

    /// The end position this suggestion applies to.
    pub fn end(&self) -> (r: usize)
        ensures
            r == self@.span.end,
    {
        self.span.end
    }

    /// The suggestion message.
    pub fn message(&self) -> (r: &String)
        ensures
            r@ == self@.message,
    {
        &self.message
    }

    /// The replacement that could fix the problem.
    pub fn replacement(&self) -> (r: &AutoFixReplacement)
        ensures
            r@ == self@.replacement,
    {
        &self.replacement
    }

    /// Create a suggestion without replacement text.
    pub fn new(file_id: u32, span: Span, message: String) -> (r: Suggestion)
        ensures
            r@ == (SuggestionV {
                file_id,
                span,
                message: message@,
                replacement: AutoFixReplacementV::NoFix,
            }),
    {
        Suggestion { file_id, span, message, replacement: AutoFixReplacement::NoFix }
    }

    /// Create a suggestion applying to a specific word.
    pub fn from(token: &Word, message: String) -> (r: Suggestion)
        ensures
            r@ == (SuggestionV {
                file_id: token@.file,
                span: crate::parser::word_span(token@),
                message: message@,
                replacement: AutoFixReplacementV::NoFix,
            }),
    {
        Suggestion {
            file_id: token.file,
            span: token.span,
            message,
            replacement: AutoFixReplacement::NoFix,
        }
    }

    /// Attach a safe replacement.
    pub fn replace(self, replacement: Vec<u8>) -> (r: Suggestion)
        ensures
            r@ == (SuggestionV { replacement: AutoFixReplacementV::Safe(replacement@), ..self@ }),
    {
        Suggestion { replacement: AutoFixReplacement::Safe(replacement), ..self }
    }

    /// Attach a replacement that needs manual review.
    pub fn replace_unsafe(self, replacement: Vec<u8>) -> (r: Suggestion)
        ensures
            r@ == (SuggestionV { replacement: AutoFixReplacementV::Unsafe(replacement@), ..self@ }),
    {
        Suggestion { replacement: AutoFixReplacement::Unsafe(replacement), ..self }
    }
}

/// A warning: one diagnostic, plus any suggestions that may fix it.
pub struct Warning {
    diagnostic: Diagnostic,
    suggestions: Vec<Suggestion>,
}

/// Mathematical image of a [`Warning`].
#[verifier::ext_equal]
pub ghost struct WarningV {
    pub diagnostic: DiagnosticV,
    pub suggestions: Seq<SuggestionV>,
}

impl View for Warning {
    type V = WarningV;

    closed spec fn view(&self) -> WarningV {
        WarningV {
            diagnostic: self.diagnostic@,
            suggestions: self.suggestions@.map_values(|s: Suggestion| s@),
        }
    }
}

/// The warning a fresh diagnostic of the given severity maps to: one
/// primary label carrying the same message, no code, no notes, no
/// suggestions.
pub open spec fn spec_new_warning(
    severity: Severity,
    file_id: u32,
    span: Span,
    message: Seq<char>,
) -> WarningV {
    WarningV {
        diagnostic: DiagnosticV {
            severity,
            code: None,
            message,
            primary_label: LabelV { file_id, span, message },
            secondary_labels: Seq::empty(),
        },
        suggestions: Seq::empty(),
    }
}

impl Warning {
    /// The diagnostic for this warning.
    pub fn diagnostic(&self) -> (r: &Diagnostic)
        ensures
            r@ == self@.diagnostic,
    {
        &self.diagnostic
    }

    /// The severity of this warning.
    pub fn severity(&self) -> (r: Severity)
        ensures
            r == self@.diagnostic.severity,
    {
        self.diagnostic.severity
    }

    /// Additional labels for this warning.
    pub fn labels(&self) -> (r: &Vec<Label>)
        ensures
            r@.map_values(|l: Label| l@) == self@.diagnostic.secondary_labels,
    {
        &self.diagnostic.secondary_labels
    }

    /// The human-readable message.
    pub fn message(&self) -> (r: &String)
        ensures
            r@ == self@.diagnostic.message,
    {
        &self.diagnostic.message
    }

    /// Could any suggestions be made?
    pub fn has_suggestions(&self) -> (r: bool)
        ensures
            r == (self@.suggestions.len() > 0),
    {
        self.suggestions.len() > 0
    }

    /// The suggestions that may help to fix the problem.
    pub fn suggestions(&self) -> (r: &Vec<Suggestion>)
        ensures
            r@.map_values(|s: Suggestion| s@) == self@.suggestions,
    {
        &self.suggestions
    }

    /// A new warning with severity `Warning`.
    pub fn warning(file_id: u32, span: Span, message: String) -> (r: Warning)
        ensures
            r@ == spec_new_warning(Severity::Warning, file_id, span, message@),
    {
        let label_message = message.clone();
        let w = Warning {
            diagnostic: Diagnostic {
                severity: Severity::Warning,
                code: None,
                message,
                primary_label: Label { file_id, span, message: label_message },
                secondary_labels: Vec::new(),
            },
            suggestions: Vec::new(),
        };
        proof {
            assert(w@ =~~= spec_new_warning(Severity::Warning, file_id, span, w.diagnostic.message@));
        }
        w
    }

    /// A new warning with severity `Error`.
    pub fn error(file_id: u32, span: Span, message: String) -> (r: Warning)
        ensures
            r@ == spec_new_warning(Severity::Error, file_id, span, message@),
    {
        let label_message = message.clone();
        let w = Warning {
            diagnostic: Diagnostic {
                severity: Severity::Error,
                code: None,
                message,
                primary_label: Label { file_id, span, message: label_message },
                secondary_labels: Vec::new(),
            },
            suggestions: Vec::new(),
        };
        proof {
            assert(w@ =~~= spec_new_warning(Severity::Error, file_id, span, w.diagnostic.message@));
        }
        w
    }

    /// Attach a replacement suggestion to this warning.
    pub fn suggest(self, suggestion: Suggestion) -> (r: Warning)
        ensures
            r@ == (WarningV {
                suggestions: self@.suggestions.push(suggestion@),
                ..self@
            }),
    {
        let ghost orig = self@;
        let ghost sv = suggestion@;
        let mut s = self;
        s.suggestions.push(suggestion);
        proof {
            assert(s.suggestions@.map_values(|x: Suggestion| x@) =~= orig.suggestions.push(sv));
        }
        s
    }

    /// Add a note referencing a snippet of code.
    pub fn note_at(self, file_id: u32, span: Span, message: &str) -> (r: Warning)
        ensures
            r@ == (WarningV {
                diagnostic: DiagnosticV {
                    secondary_labels: self@.diagnostic.secondary_labels.push(
                        LabelV { file_id, span, message: message@ },
                    ),
                    ..self@.diagnostic
                },
                ..self@
            }),
    {
        let ghost orig = self@;
        let note_message = message.to_owned();
        let ghost lv = LabelV { file_id, span, message: message@ };
        let mut s = self;
        s.diagnostic.secondary_labels.push(Label { file_id, span, message: note_message });
        proof {
            assert(s.diagnostic.secondary_labels@.map_values(|l: Label| l@)
                =~= orig.diagnostic.secondary_labels.push(lv));
        }
        s
    }

    /// Set the lint that emitted this warning.
    pub fn lint(self, lint: &str) -> (r: Warning)
        ensures
            r@ == (WarningV {
                diagnostic: DiagnosticV { code: Some(lint@), ..self@.diagnostic },
                ..self@
            }),
    {
        let mut s = self;
        s.diagnostic.code = Some(lint.to_owned());
        s
    }
}

impl Word {
    /// A new warning-severity diagnostic applying to this word.
    pub fn warning(&self, message: String) -> (r: Warning)
        ensures
            r@ == spec_new_warning(
                Severity::Warning,
                self@.file,
                crate::parser::word_span(self@),
                message@,
            ),
    {
        Warning::warning(self.file, self.span, message)
    }

    /// A new error-severity diagnostic applying to this word.
    pub fn error(&self, message: String) -> (r: Warning)
        ensures
            r@ == spec_new_warning(
                Severity::Error,
                self@.file,
                crate::parser::word_span(self@),
                message@,
            ),
    {
        Warning::error(self.file, self.span, message)
    }
}

impl Atom {
    /// A new warning-severity diagnostic applying to this atom.
    pub fn warning(&self, message: String) -> (r: Warning)
        ensures
            r@ == spec_new_warning(
                Severity::Warning,
                spec_file_id(self@),
                spec_span(self@),
                message@,
            ),
    {
        Warning::warning(self.file_id(), self.span(), message)
    }

    /// A new error-severity diagnostic applying to this atom.
    pub fn error(&self, message: String) -> (r: Warning)
        ensures
            r@ == spec_new_warning(
                Severity::Error,
                spec_file_id(self@),
                spec_span(self@),
                message@,
            ),
    {
        Warning::error(self.file_id(), self.span(), message)
    }
}

} // verus!
