//! The immutable parse result for one source text: the root compilation
//! unit plus the full, ordered diagnostic list from lexing and parsing.
//! `parse` is the only place the lexer and the parser are instantiated.

use vstd::prelude::*;

use crate::ast::CompilationUnit;
use crate::ast::Unit;
use crate::diagnostics::Diagnostic;
use crate::diagnostics::DiagnosticBag;
use crate::lexer::spec_kept_tokens;
use crate::lexer::spec_lex_diagnostics;
use crate::parser::Parser;
use crate::parser::sp_compilation_unit;

verus! {

/// What parsing a text yields: the root compilation unit of
/// `sp_compilation_unit` over the text's filtered tokens, and the lexer's
/// diagnostics followed by the parser's, in order of detection.
pub open spec fn spec_parse_result(s: Seq<char>) -> (Unit, Seq<Diagnostic>) {
    let (unit, _, parse_diagnostics) = sp_compilation_unit(spec_kept_tokens(s, 0), 0);
    (unit, spec_lex_diagnostics(s, 0) + parse_diagnostics)
}

/// A parsed source text: the tree and its diagnostics, constructed once and
/// never mutated.
pub struct SyntaxTree {
    root: CompilationUnit,
    diagnostics: DiagnosticBag,
}

impl SyntaxTree {
    /// Model of the root compilation unit.
    pub closed spec fn root_model(self) -> Unit {
        self.root.deep_view()
    }

    /// Model of the diagnostic list.
    pub closed spec fn diags_model(self) -> Seq<Diagnostic> {
        self.diagnostics@
    }

    /// Lex and parse one source text. A tree is always returned; whether
    /// the input was well formed is read off `diagnostics`.
    pub fn parse(text: &str) -> (tree: SyntaxTree)
        ensures
            tree.root_model() == spec_parse_result(text@).0,
            tree.diags_model() == spec_parse_result(text@).1,
    {
        let mut parser = Parser::new(text);
        let root = parser.parse_compilation_unit();
        let diagnostics = parser.diagnostics();
        SyntaxTree { root, diagnostics }
    }

    /// The root compilation unit.
    pub fn root(&self) -> (root: &CompilationUnit)
        ensures
            root.deep_view() == self.root_model(),
    {
        &self.root
    }

    /// The diagnostics collected during lexing and parsing, in order of
    /// detection.
    pub fn diagnostics(&self) -> (diagnostics: &DiagnosticBag)
        ensures
            diagnostics@ == self.diags_model(),
    {
        &self.diagnostics
    }
}

} // verus!
