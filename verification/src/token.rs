//! Tokens: immutable value objects with a kind, an absolute position, the
//! exact source text, and, for literals, a decoded value.

use vstd::prelude::*;
use vstd::string::StrSliceExecFns;

use crate::syntax_kind::SyntaxKind;

verus! {

/// A decoded literal value carried by a token or a literal expression.
#[derive(Clone, Copy, PartialEq, Eq, Structural, Debug)]
pub enum MinskValue {
    Integer(i64),
    Boolean(bool),
}

/// A half-open character range `[start, start + length)` of the source text.
#[derive(Clone, Copy, PartialEq, Eq, Structural, Debug)]
pub struct TextSpan {
    pub start: usize,
    pub length: usize,
}

/// A lexical token. Equality is structural; tokens are freely cloneable.
#[derive(Clone, PartialEq, Eq, Debug)]
pub struct SyntaxToken {
    pub kind: SyntaxKind,
    pub position: usize,
    pub text: String,
    pub value: Option<MinskValue>,
}

/// The mathematical model of a token: the same fields with the text as a
/// sequence of characters.
pub ghost struct Tok {
    pub kind: SyntaxKind,
    pub position: usize,
    pub text: Seq<char>,
    pub value: Option<MinskValue>,
}

impl View for SyntaxToken {
    type V = Tok;

    open spec fn view(&self) -> Tok {
        Tok { kind: self.kind, position: self.position, text: self.text@, value: self.value }
    }
}

impl DeepView for SyntaxToken {
    type V = Tok;

    open spec fn deep_view(&self) -> Tok {
        self.view()
    }
}

impl Tok {
    /// The source range this token covers.
    pub open spec fn span(self) -> TextSpan {
        TextSpan { start: self.position, length: self.text.len() as usize }
    }
}

impl SyntaxToken {
    pub fn new(kind: SyntaxKind, position: usize, text: String, value: Option<MinskValue>) -> (token:
        SyntaxToken)
        ensures
            token@ == (Tok { kind, position, text: text@, value }),
    {
        SyntaxToken { kind, position, text, value }
    }

    /// A copy of this token; tokens are value objects and copy freely.
    pub fn duplicate(&self) -> (token: SyntaxToken)
        ensures
            token@ == self@,
    {
        SyntaxToken {
            kind: self.kind,
            position: self.position,
            text: self.text.clone(),
            value: self.value,
        }
    }

    /// The source range this token covers.
    pub fn span(&self) -> (span: TextSpan)
        ensures
            span == self@.span(),
    {
        TextSpan { start: self.position, length: self.text.as_str().unicode_len() }
    }
}

} // verus!
