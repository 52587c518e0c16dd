//! The closed enumeration of token kinds, and the operator-precedence and
//! canonical-spelling tables derived from it.

use vstd::prelude::*;

verus! {

/// Kind tag of a lexical token. The lexer produces exactly these; the parser
/// dispatches on them. `EndOfFile` terminates every token sequence,
/// `Whitespace` and `BadToken` are filtered out before parsing.
#[derive(Clone, Copy, PartialEq, Eq, Structural, Debug)]
pub enum SyntaxKind {
    BadToken,
    EndOfFile,
    Whitespace,
    Number,
    Identifier,
    Plus,
    Minus,
    Star,
    Slash,
    Equals,
    OpenParenthesis,
    CloseParenthesis,
    OpenBrace,
    CloseBrace,
    TrueKeyword,
    FalseKeyword,
    LetKeyword,
    VarKeyword,
    IfKeyword,
    ElseKeyword,
    WhileKeyword,
    ForKeyword,
    ToKeyword,
}

/// Precedence of a kind used as an infix (binary) operator; 0 means the kind
/// is not a binary operator. Higher numbers bind tighter.
pub open spec fn spec_binary_operator_precedence(kind: SyntaxKind) -> nat {
    match kind {
        SyntaxKind::Star | SyntaxKind::Slash => 2,
        SyntaxKind::Plus | SyntaxKind::Minus => 1,
        _ => 0,
    }
}

/// Precedence of a kind used as a prefix (unary) operator; 0 means the kind
/// is not a unary operator. Unary operators outrank all binary operators.
pub open spec fn spec_unary_operator_precedence(kind: SyntaxKind) -> nat {
    match kind {
        SyntaxKind::Plus | SyntaxKind::Minus => 3,
        _ => 0,
    }
}

impl SyntaxKind {
    /// Binary (infix) operator precedence of this kind; 0 when it is none.
    pub fn binary_operator_precedence(&self) -> (precedence: usize)
        ensures
            precedence == spec_binary_operator_precedence(*self),
    {
        match self {
            SyntaxKind::Star | SyntaxKind::Slash => 2,
            SyntaxKind::Plus | SyntaxKind::Minus => 1,
            _ => 0,
        }
    }

    /// Unary (prefix) operator precedence of this kind; 0 when it is none.
    pub fn unary_operator_precedence(&self) -> (precedence: usize)
        ensures
            precedence == spec_unary_operator_precedence(*self),
    {
        match self {
            SyntaxKind::Plus | SyntaxKind::Minus => 3,
            _ => 0,
        }
    }
}

/// The canonical spelling of a fixed-spelling kind (operators, punctuation
/// and keywords), or `None` for kinds whose text varies with the input.
pub open spec fn spec_fixed_text(kind: SyntaxKind) -> Option<Seq<char>> {
    match kind {
        SyntaxKind::Plus => Some("+"@),
        SyntaxKind::Minus => Some("-"@),
        SyntaxKind::Star => Some("*"@),
        SyntaxKind::Slash => Some("/"@),
        SyntaxKind::Equals => Some("="@),
        SyntaxKind::OpenParenthesis => Some("("@),
        SyntaxKind::CloseParenthesis => Some(")"@),
        SyntaxKind::OpenBrace => Some("{"@),
        SyntaxKind::CloseBrace => Some("}"@),
        SyntaxKind::TrueKeyword => Some("true"@),
        SyntaxKind::FalseKeyword => Some("false"@),
        SyntaxKind::LetKeyword => Some("let"@),
        SyntaxKind::VarKeyword => Some("var"@),
        SyntaxKind::IfKeyword => Some("if"@),
        SyntaxKind::ElseKeyword => Some("else"@),
        SyntaxKind::WhileKeyword => Some("while"@),
        SyntaxKind::ForKeyword => Some("for"@),
        SyntaxKind::ToKeyword => Some("to"@),
        _ => None,
    }
}

/// Canonical text of a fixed-spelling kind, used by tests and by tooling
/// that synthesizes source fragments.
pub fn get_text(kind: SyntaxKind) -> (text: Option<&'static str>)
    ensures
        match text {
            Some(t) => spec_fixed_text(kind) == Some(t@),
            None => spec_fixed_text(kind) is None,
        },
{
    match kind {
        SyntaxKind::Plus => Some("+"),
        SyntaxKind::Minus => Some("-"),
        SyntaxKind::Star => Some("*"),
        SyntaxKind::Slash => Some("/"),
        SyntaxKind::Equals => Some("="),
        SyntaxKind::OpenParenthesis => Some("("),
        SyntaxKind::CloseParenthesis => Some(")"),
        SyntaxKind::OpenBrace => Some("{"),
        SyntaxKind::CloseBrace => Some("}"),
        SyntaxKind::TrueKeyword => Some("true"),
        SyntaxKind::FalseKeyword => Some("false"),
        SyntaxKind::LetKeyword => Some("let"),
        SyntaxKind::VarKeyword => Some("var"),
        SyntaxKind::IfKeyword => Some("if"),
        SyntaxKind::ElseKeyword => Some("else"),
        SyntaxKind::WhileKeyword => Some("while"),
        SyntaxKind::ForKeyword => Some("for"),
        SyntaxKind::ToKeyword => Some("to"),
        _ => None,
    }
}

} // verus!
