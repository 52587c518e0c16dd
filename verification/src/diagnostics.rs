//! Diagnostics: non-fatal errors recorded in strict order of detection.
//! Rendering a diagnostic as human-readable text belongs to the surrounding
//! tooling; the core records the triggering span and a structured message.

use vstd::prelude::*;

use crate::syntax_kind::SyntaxKind;
use crate::token::TextSpan;

verus! {

/// What went wrong, in structured form.
#[derive(Clone, Copy, PartialEq, Eq, Structural, Debug)]
pub enum DiagnosticMessage {
    /// The input held a character that starts no token.
    BadCharacter { character: char },
    /// A numeric literal does not fit the target numeric representation.
    InvalidNumber,
    /// The parser required one token kind and found another.
    UnexpectedToken { actual: SyntaxKind, expected: SyntaxKind },
}

/// One recorded error: the source range that triggered it and the message.
#[derive(Clone, Copy, PartialEq, Eq, Structural, Debug)]
pub struct Diagnostic {
    pub span: TextSpan,
    pub message: DiagnosticMessage,
}

/// Append-only ordered collection of diagnostics, shared by the lexer and
/// the parser so that lexical and syntactic errors form one timeline.
#[derive(Debug)]
pub struct DiagnosticBag {
    diagnostics: Vec<Diagnostic>,
}

impl View for DiagnosticBag {
    type V = Seq<Diagnostic>;

    closed spec fn view(&self) -> Seq<Diagnostic> {
        self.diagnostics@
    }
}

/// The diagnostic recorded when `actual` stood where `expected` was required.
pub open spec fn spec_unexpected_token(span: TextSpan, actual: SyntaxKind, expected: SyntaxKind)
    -> Diagnostic {
    Diagnostic { span, message: DiagnosticMessage::UnexpectedToken { actual, expected } }
}

/// The diagnostic recorded for a character that starts no token.
pub open spec fn spec_bad_character(span: TextSpan, character: char) -> Diagnostic {
    Diagnostic { span, message: DiagnosticMessage::BadCharacter { character } }
}

/// The diagnostic recorded for a numeric literal that does not fit.
pub open spec fn spec_invalid_number(span: TextSpan) -> Diagnostic {
    Diagnostic { span, message: DiagnosticMessage::InvalidNumber }
}

impl DiagnosticBag {
    pub fn new() -> (bag: DiagnosticBag)
        ensures
            bag@ == Seq::<Diagnostic>::empty(),
    {
        DiagnosticBag { diagnostics: Vec::new() }
    }

    pub fn len(&self) -> (n: usize)
        ensures
            n == self@.len(),
    {
        self.diagnostics.len()
    }

    pub fn get(&self, index: usize) -> (diagnostic: &Diagnostic)
        requires
            index < self@.len(),
        ensures
            *diagnostic == self@[index as int],
    {
        &self.diagnostics[index]
    }

    pub fn report_bad_character(&mut self, span: TextSpan, character: char)
        ensures
            final(self)@ == old(self)@.push(spec_bad_character(span, character)),
    {
        self.diagnostics.push(Diagnostic {
            span,
            message: DiagnosticMessage::BadCharacter { character },
        });
    }

    pub fn report_invalid_number(&mut self, span: TextSpan)
        ensures
            final(self)@ == old(self)@.push(spec_invalid_number(span)),
    {
        self.diagnostics.push(Diagnostic { span, message: DiagnosticMessage::InvalidNumber });
    }

    pub fn report_unexpected_token(&mut self, span: TextSpan, actual: SyntaxKind, expected: SyntaxKind)
        ensures
            final(self)@ == old(self)@.push(spec_unexpected_token(span, actual, expected)),
    {
        self.diagnostics.push(Diagnostic {
            span,
            message: DiagnosticMessage::UnexpectedToken { actual, expected },
        });
    }
}

} // verus!
