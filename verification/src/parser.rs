//! The parser: recursive descent for statements, precedence climbing for
//! expressions. It consumes the whitespace- and bad-token-free token
//! sequence (which always ends in `EndOfFile`) and always produces a tree:
//! a mismatched token is reported and replaced by a zero-width synthetic
//! token, so no input can make parsing fail or run forever.
//!
//! The `sp_*` spec functions are the mathematical description of the parse:
//! each takes the token sequence and a position and returns the node parsed,
//! the position after it, and the diagnostics reported, in order. Each
//! executable method is proved to return exactly the value of its spec
//! function. The spec functions are total; where well-foundedness needs a
//! position bound that real token sequences always satisfy (`wf_tokens`),
//! they clamp through `step_bound` or carry a `when` bound, and the proofs
//! of the executable methods show the clamps never fire.

use vstd::prelude::*;

use crate::ast::CompilationUnit;
use crate::ast::ElseClauseSyntax;
use crate::ast::ElseM;
use crate::ast::Expr;
use crate::ast::ExpressionSyntax;
use crate::ast::StatementSyntax;
use crate::ast::Stmt;
use crate::ast::Unit;
use crate::ast::lemma_stmts_upto_prefix;
use crate::ast::stmts_deep_view_upto;
use crate::diagnostics::Diagnostic;
use crate::diagnostics::DiagnosticBag;
use crate::diagnostics::spec_unexpected_token;
use crate::lexer::Lexer;
use crate::lexer::spec_kept_tokens;
use crate::lexer::spec_lex_diagnostics;
use crate::syntax_kind::SyntaxKind;
use crate::syntax_kind::spec_binary_operator_precedence;
use crate::syntax_kind::spec_unary_operator_precedence;
use crate::token::SyntaxToken;
use crate::token::Tok;

verus! {

/// Shape of every token buffer the parser works on: non-empty, ends in
/// `EndOfFile`, and `EndOfFile` appears nowhere earlier.
pub open spec fn wf_tokens(toks: Seq<Tok>) -> bool {
    &&& toks.len() >= 1
    &&& toks[toks.len() - 1].kind == SyntaxKind::EndOfFile
    &&& forall|i: int| 0 <= i < toks.len() - 1 ==> (#[trigger] toks[i].kind) != SyntaxKind::EndOfFile
}

/// The token the parser sees at `pos`: reading past the end clamps to the
/// final (`EndOfFile`) token, so lookahead never fails.
pub open spec fn tok_cur(toks: Seq<Tok>, pos: int) -> Tok {
    if pos >= toks.len() - 1 {
        toks[toks.len() - 1]
    } else if pos < 0 {
        toks[0]
    } else {
        toks[pos]
    }
}

/// Remaining-input measure that every parse step decreases.
pub open spec fn rem(toks: Seq<Tok>, pos: int) -> int {
    if pos > toks.len() {
        0
    } else {
        toks.len() - pos
    }
}

/// A position bounded into `[lo, toks.len()]`; the spec functions route
/// recursive calls through this so that each is well founded. On the token
/// sequences the parser actually sees, the bound never changes the value.
pub open spec fn step_bound(toks: Seq<Tok>, lo: int, pos: int) -> int {
    let q = if pos < lo {
        lo
    } else {
        pos
    };
    if q > toks.len() {
        toks.len() as int
    } else {
        q
    }
}

/// The single error-recovery primitive: if the token at `pos` has the
/// expected kind it is consumed; otherwise an unexpected-token diagnostic is
/// reported and a zero-width synthetic token of the expected kind stands in,
/// consuming nothing.
pub open spec fn sp_match(toks: Seq<Tok>, pos: int, kind: SyntaxKind) -> (Tok, int, Seq<
    Diagnostic,
>) {
    let c = tok_cur(toks, pos);
    if c.kind == kind {
        (c, pos + 1, Seq::empty())
    } else {
        (
            Tok { kind, position: c.position, text: Seq::empty(), value: None },
            pos,
            seq![spec_unexpected_token(c.span(), c.kind, kind)],
        )
    }
}

/// Primary expression: parenthesized, boolean literal, numeric literal or
/// name; any other token falls through to a `Number` match, which fails and
/// yields a diagnostic plus a placeholder numeric literal.
pub open spec fn sp_primary_expression(toks: Seq<Tok>, pos: int) -> (Expr, int, Seq<Diagnostic>)
    decreases rem(toks, pos), 1int,
{
    match tok_cur(toks, pos).kind {
        SyntaxKind::OpenParenthesis => sp_parenthesized_expression(toks, pos),
        SyntaxKind::TrueKeyword => sp_boolean_expression(toks, pos),
        SyntaxKind::FalseKeyword => sp_boolean_expression(toks, pos),
        SyntaxKind::Number => sp_numeric_literal(toks, pos),
        SyntaxKind::Identifier => sp_name_expression(toks, pos),
        _ => sp_numeric_literal(toks, pos),
    }
}

/// `( expression )`.
pub open spec fn sp_parenthesized_expression(toks: Seq<Tok>, pos: int) -> (Expr, int, Seq<
    Diagnostic,
>)
    decreases rem(toks, pos), 0int,
    when pos + 1 < toks.len()
{
    let open = tok_cur(toks, pos);
    let (inner, p1, d1) = sp_expression(toks, pos + 1);
    let (close, p2, d2) = sp_match(toks, p1, SyntaxKind::CloseParenthesis);
    (
        Expr::Parenthesized {
            open_parenthesis_token: open,
            expression: Box::new(inner),
            close_parenthesis_token: close,
        },
        p2,
        d1 + d2,
    )
}

/// `true` or `false`, decoded.
pub open spec fn sp_boolean_expression(toks: Seq<Tok>, pos: int) -> (Expr, int, Seq<Diagnostic>) {
    let is_true = tok_cur(toks, pos).kind == SyntaxKind::TrueKeyword;
    let expected = if is_true {
        SyntaxKind::TrueKeyword
    } else {
        SyntaxKind::FalseKeyword
    };
    let (tok, p1, d1) = sp_match(toks, pos, expected);
    (
        Expr::Literal {
            literal_token: tok,
            value: Some(crate::token::MinskValue::Boolean(is_true)),
        },
        p1,
        d1,
    )
}

/// A numeric literal; its value was decoded at lex time and is carried by
/// the token.
pub open spec fn sp_numeric_literal(toks: Seq<Tok>, pos: int) -> (Expr, int, Seq<Diagnostic>) {
    let (tok, p1, d1) = sp_match(toks, pos, SyntaxKind::Number);
    (Expr::Literal { literal_token: tok, value: tok.value }, p1, d1)
}

/// A name expression.
pub open spec fn sp_name_expression(toks: Seq<Tok>, pos: int) -> (Expr, int, Seq<Diagnostic>) {
    let (tok, p1, d1) = sp_match(toks, pos, SyntaxKind::Identifier);
    (Expr::Name { identifier_token: tok }, p1, d1)
}

/// The precedence-climbing loop: while the token at `pos` is a binary
/// operator binding tighter than `parent_precedence`, consume it, parse its
/// right-hand side at the operator's precedence, and fold into a
/// left-associative `Binary` node around `left`.
pub open spec fn sp_binary_loop(toks: Seq<Tok>, pos: int, parent_precedence: nat, left: Expr) -> (
    Expr,
    int,
    Seq<Diagnostic>,
)
    decreases rem(toks, pos), 1int,
{
    let precedence = spec_binary_operator_precedence(tok_cur(toks, pos).kind);
    if precedence == 0 || precedence <= parent_precedence || !(pos + 1 < toks.len()) {
        (left, pos, Seq::empty())
    } else {
        let operator = tok_cur(toks, pos);
        let (right, p1, d1) = sp_binary_expression(toks, pos + 1, precedence);
        let folded = Expr::Binary {
            left: Box::new(left),
            operator_token: operator,
            right: Box::new(right),
        };
        let (result, p2, d2) = sp_binary_loop(toks, step_bound(toks, pos + 1, p1), parent_precedence, folded);
        (result, p2, d1 + d2)
    }
}

/// Unary/binary expression parsing by precedence climbing: a prefix operator
/// whose precedence is nonzero and at least `parent_precedence` binds a
/// recursively parsed operand; otherwise the left operand is a primary
/// expression; then the binary loop folds in operators that bind tighter
/// than the parent.
pub open spec fn sp_binary_expression(toks: Seq<Tok>, pos: int, parent_precedence: nat) -> (
    Expr,
    int,
    Seq<Diagnostic>,
)
    decreases rem(toks, pos), 2int,
{
    let unary_precedence = spec_unary_operator_precedence(tok_cur(toks, pos).kind);
    if unary_precedence != 0 && unary_precedence >= parent_precedence && pos + 1 < toks.len() {
        let operator = tok_cur(toks, pos);
        let (operand, p1, d1) = sp_binary_expression(toks, pos + 1, unary_precedence);
        let left = Expr::Unary { operator_token: operator, operand: Box::new(operand) };
        let (result, p2, d2) = sp_binary_loop(toks, step_bound(toks, pos + 1, p1), parent_precedence, left);
        (result, p2, d1 + d2)
    } else {
        let (left, p1, d1) = sp_primary_expression(toks, pos);
        let (result, p2, d2) = sp_binary_loop(toks, step_bound(toks, pos, p1), parent_precedence, left);
        (result, p2, d1 + d2)
    }
}

/// Assignment has lowest precedence and chains right-associatively: a name
/// directly followed by `=` starts an assignment whose right-hand side is
/// again a full assignment expression.
pub open spec fn sp_assignment_expression(toks: Seq<Tok>, pos: int) -> (Expr, int, Seq<Diagnostic>)
    decreases rem(toks, pos), 3int,
{
    if tok_cur(toks, pos).kind == SyntaxKind::Identifier && tok_cur(toks, pos + 1).kind
        == SyntaxKind::Equals && pos + 2 < toks.len() {
        let identifier = tok_cur(toks, pos);
        let equals = tok_cur(toks, pos + 1);
        let (right, p1, d1) = sp_assignment_expression(toks, pos + 2);
        (
            Expr::Assignment {
                identifier_token: identifier,
                equals_token: equals,
                expression: Box::new(right),
            },
            p1,
            d1,
        )
    } else {
        sp_binary_expression(toks, pos, 0)
    }
}

/// An expression: assignment parsing with parent precedence 0.
pub open spec fn sp_expression(toks: Seq<Tok>, pos: int) -> (Expr, int, Seq<Diagnostic>)
    decreases rem(toks, pos), 4int,
{
    sp_assignment_expression(toks, pos)
}

/// A bare expression as a statement.
pub open spec fn sp_expression_statement(toks: Seq<Tok>, pos: int) -> (Stmt, int, Seq<Diagnostic>)
    decreases rem(toks, pos), 8int,
{
    let (expression, p1, d1) = sp_expression(toks, pos);
    (Stmt::Expression { expression }, p1, d1)
}

/// `let name = initializer` or `var name = initializer`.
pub open spec fn sp_variable_declaration(toks: Seq<Tok>, pos: int) -> (Stmt, int, Seq<Diagnostic>)
    decreases rem(toks, pos), 8int,
{
    let expected = if tok_cur(toks, pos).kind == SyntaxKind::LetKeyword {
        SyntaxKind::LetKeyword
    } else {
        SyntaxKind::VarKeyword
    };
    let (keyword, p1, d1) = sp_match(toks, pos, expected);
    let (identifier, p2, d2) = sp_match(toks, p1, SyntaxKind::Identifier);
    let (equals, p3, d3) = sp_match(toks, p2, SyntaxKind::Equals);
    let (initializer, p4, d4) = sp_expression(toks, step_bound(toks, pos, p3));
    (
        Stmt::VariableDeclaration { keyword, identifier, equals_token: equals, initializer },
        p4,
        d1 + d2 + d3 + d4,
    )
}

/// The optional `else` clause of an `if` statement: present exactly when the
/// current token is `else`.
pub open spec fn sp_optional_else_clause(toks: Seq<Tok>, pos: int) -> (Option<ElseM>, int, Seq<
    Diagnostic,
>)
    decreases rem(toks, pos), 7int,
{
    if tok_cur(toks, pos).kind == SyntaxKind::ElseKeyword && pos + 1 < toks.len() {
        let keyword = tok_cur(toks, pos);
        let (body, p1, d1) = sp_statement(toks, pos + 1);
        (Some(ElseM { keyword, statement: Box::new(body) }), p1, d1)
    } else {
        (None, pos, Seq::empty())
    }
}

/// `if condition body`, with an optional `else` clause.
pub open spec fn sp_if_statement(toks: Seq<Tok>, pos: int) -> (Stmt, int, Seq<Diagnostic>)
    decreases rem(toks, pos), 8int,
    when pos + 1 < toks.len()
{
    let (keyword, p1, d1) = sp_match(toks, pos, SyntaxKind::IfKeyword);
    let (condition, p2, d2) = sp_expression(toks, step_bound(toks, pos, p1));
    let (body, p3, d3) = sp_statement(toks, step_bound(toks, pos + 1, p2));
    let (else_clause, p4, d4) = sp_optional_else_clause(toks, step_bound(toks, pos, p3));
    (
        Stmt::If { keyword, condition, body: Box::new(body), else_clause },
        p4,
        d1 + d2 + d3 + d4,
    )
}

/// `while condition body`.
pub open spec fn sp_while_statement(toks: Seq<Tok>, pos: int) -> (Stmt, int, Seq<Diagnostic>)
    decreases rem(toks, pos), 8int,
    when pos + 1 < toks.len()
{
    let (keyword, p1, d1) = sp_match(toks, pos, SyntaxKind::WhileKeyword);
    let (condition, p2, d2) = sp_expression(toks, step_bound(toks, pos, p1));
    let (body, p3, d3) = sp_statement(toks, step_bound(toks, pos + 1, p2));
    (Stmt::While { keyword, condition, body: Box::new(body) }, p3, d1 + d2 + d3)
}

/// `for name = lower to upper body`.
pub open spec fn sp_for_statement(toks: Seq<Tok>, pos: int) -> (Stmt, int, Seq<Diagnostic>)
    decreases rem(toks, pos), 8int,
    when pos + 1 < toks.len()
{
    let (keyword, p1, d1) = sp_match(toks, pos, SyntaxKind::ForKeyword);
    let (identifier, p2, d2) = sp_match(toks, p1, SyntaxKind::Identifier);
    let (equals, p3, d3) = sp_match(toks, p2, SyntaxKind::Equals);
    let (lower, p4, d4) = sp_expression(toks, step_bound(toks, pos, p3));
    let (to_token, p5, d5) = sp_match(toks, p4, SyntaxKind::ToKeyword);
    let (upper, p6, d6) = sp_expression(toks, step_bound(toks, pos, p5));
    let (body, p7, d7) = sp_statement(toks, step_bound(toks, pos + 1, p6));
    (
        Stmt::For {
            keyword,
            identifier,
            equals_token: equals,
            lower_bound: Box::new(lower),
            to_token,
            upper_bound: Box::new(upper),
            body: Box::new(body),
        },
        p7,
        d1 + d2 + d3 + d4 + d5 + d6 + d7,
    )
}

/// The statements of a block, parsed until `}` or the end of the input. A
/// statement production that consumes no tokens is followed by a forced
/// one-token advance, so the loop always progresses; the advance reports no
/// diagnostic of its own because the failed sub-parse already did.
pub open spec fn sp_block_items(toks: Seq<Tok>, pos: int) -> (Seq<Stmt>, int, Seq<Diagnostic>)
    decreases rem(toks, pos), 10int,
{
    let c = tok_cur(toks, pos);
    if c.kind == SyntaxKind::EndOfFile || c.kind == SyntaxKind::CloseBrace || !(pos + 1
        < toks.len()) {
        (Seq::empty(), pos, Seq::empty())
    } else {
        let (statement, p1, d1) = sp_statement(toks, pos);
        let p2 = if p1 == pos {
            pos + 1
        } else {
            p1
        };
        let (rest, p3, d3) = sp_block_items(toks, step_bound(toks, pos + 1, p2));
        (seq![statement] + rest, p3, d1 + d3)
    }
}

/// `{ statements }`.
pub open spec fn sp_block_statement(toks: Seq<Tok>, pos: int) -> (Stmt, int, Seq<Diagnostic>)
    decreases rem(toks, pos), 8int,
    when pos + 1 < toks.len()
{
    let (open, p1, d1) = sp_match(toks, pos, SyntaxKind::OpenBrace);
    let (statements, p2, d2) = sp_block_items(toks, step_bound(toks, pos + 1, p1));
    let (close, p3, d3) = sp_match(toks, p2, SyntaxKind::CloseBrace);
    (
        Stmt::Block { open_brace_token: open, statements, close_brace_token: close },
        p3,
        d1 + d2 + d3,
    )
}

/// A statement, dispatched on the current token kind; anything that starts
/// no other statement form is an expression statement.
pub open spec fn sp_statement(toks: Seq<Tok>, pos: int) -> (Stmt, int, Seq<Diagnostic>)
    decreases rem(toks, pos), 9int,
{
    match tok_cur(toks, pos).kind {
        SyntaxKind::OpenBrace => sp_block_statement(toks, pos),
        SyntaxKind::LetKeyword => sp_variable_declaration(toks, pos),
        SyntaxKind::VarKeyword => sp_variable_declaration(toks, pos),
        SyntaxKind::ForKeyword => sp_for_statement(toks, pos),
        SyntaxKind::IfKeyword => sp_if_statement(toks, pos),
        SyntaxKind::WhileKeyword => sp_while_statement(toks, pos),
        _ => sp_expression_statement(toks, pos),
    }
}

/// One whole compilation unit: a single statement followed by `EndOfFile`;
/// trailing input is reported as an unexpected token.
pub open spec fn sp_compilation_unit(toks: Seq<Tok>, pos: int) -> (Unit, int, Seq<Diagnostic>)
    decreases rem(toks, pos), 10int,
{
    let (statement, p1, d1) = sp_statement(toks, pos);
    let (end_of_file_token, p2, d2) = sp_match(toks, p1, SyntaxKind::EndOfFile);
    (Unit { statement, end_of_file_token }, p2, d1 + d2)
}

/// The filtered token sequence of any text has the shape the parser needs.
pub proof fn lemma_kept_tokens_wf(s: Seq<char>, pos: int)
    ensures
        wf_tokens(spec_kept_tokens(s, pos)),
    decreases s.len() - pos,
{
    if pos < 0 || pos >= s.len() {
        assert(spec_kept_tokens(s, pos) =~= seq![crate::lexer::eof_tok(s)]);
    } else {
        let (t, end, d) = crate::lexer::spec_scan(s, pos);
        lemma_kept_tokens_wf(s, end);
        assert(t.kind != SyntaxKind::EndOfFile);
        let rest = spec_kept_tokens(s, end);
        if !(t.kind == SyntaxKind::Whitespace || t.kind == SyntaxKind::BadToken) {
            let all = seq![t] + rest;
            assert(all[all.len() - 1] == rest[rest.len() - 1]);
            assert forall|i: int| 0 <= i < all.len() - 1 implies (#[trigger] all[i].kind)
                != SyntaxKind::EndOfFile by {
                if i > 0 {
                    assert(all[i] == rest[i - 1]);
                }
            }
        }
    }
}

/// The parser: an index cursor over the filtered token buffer plus the
/// diagnostic bag it shares with the lexer.
pub struct Parser {
    tokens: Vec<SyntaxToken>,
    position: usize,
    diagnostics: DiagnosticBag,
}

impl Parser {
    /// The token buffer as a sequence of token models.
    pub closed spec fn toks(self) -> Seq<Tok> {
        self.tokens.deep_view()
    }

    /// The cursor.
    pub closed spec fn pos(self) -> int {
        self.position as int
    }

    /// The diagnostics recorded so far, lexical ones included.
    pub closed spec fn diags(self) -> Seq<Diagnostic> {
        self.diagnostics@
    }

    /// The parser's invariant: a well-shaped buffer and a cursor on it.
    pub open spec fn wf(self) -> bool {
        &&& wf_tokens(self.toks())
        &&& 0 <= self.pos() < self.toks().len()
    }

    /// Lex `text` to exhaustion, keep every token that is neither
    /// whitespace nor a bad token, and take over the lexer's diagnostics.
    pub fn new(text: &str) -> (parser: Parser)
        ensures
            parser.wf(),
            parser.toks() == spec_kept_tokens(text@, 0),
            parser.pos() == 0,
            parser.diags() == spec_lex_diagnostics(text@, 0),
    {
        let ghost s = text@;
        let mut lexer = Lexer::new(text);
        let mut tokens: Vec<SyntaxToken> = Vec::new();
        loop
            invariant_except_break
                lexer.wf(),
                lexer.src() == s,
                tokens.deep_view() + spec_kept_tokens(s, lexer.pos()) =~= spec_kept_tokens(s, 0),
                lexer.diags() + spec_lex_diagnostics(s, lexer.pos()) =~= spec_lex_diagnostics(
                    s,
                    0,
                ),
            ensures
                tokens.deep_view() =~= spec_kept_tokens(s, 0),
                lexer.diags() =~= spec_lex_diagnostics(s, 0),
            decreases s.len() - lexer.pos() + 1,
        {
            let ghost p = lexer.pos();
            let ghost prev = tokens.deep_view();
            let ghost prev_diags = lexer.diags();
            let token = lexer.next_token();
            let kind = token.kind;
            if kind != SyntaxKind::BadToken && kind != SyntaxKind::Whitespace {
                tokens.push(token);
                proof {
                    assert(tokens.deep_view() =~= prev.push(token@));
                }
            }
            proof {
                let (t, end, d) = crate::lexer::spec_scan(s, p);
                if p < s.len() {
                    assert(spec_lex_diagnostics(s, p) == d + spec_lex_diagnostics(s, end));
                    assert(lexer.diags() + spec_lex_diagnostics(s, lexer.pos()) =~= prev_diags
                        + spec_lex_diagnostics(s, p));
                    if t.kind == SyntaxKind::Whitespace || t.kind == SyntaxKind::BadToken {
                        assert(spec_kept_tokens(s, p) == spec_kept_tokens(s, end));
                    } else {
                        assert(spec_kept_tokens(s, p) == seq![t] + spec_kept_tokens(s, end));
                        assert(tokens.deep_view() + spec_kept_tokens(s, lexer.pos()) =~= prev
                            + spec_kept_tokens(s, p));
                    }
                } else {
                    assert(spec_kept_tokens(s, p) =~= seq![t]);
                    assert(tokens.deep_view() =~= prev + spec_kept_tokens(s, p));
                }
            }
            if kind == SyntaxKind::EndOfFile {
                proof {
                    assert(spec_kept_tokens(s, lexer.pos()) =~= seq![crate::lexer::eof_tok(s)]);
                    assert(spec_lex_diagnostics(s, lexer.pos()) =~= Seq::<Diagnostic>::empty());
                    assert(tokens.deep_view() =~= spec_kept_tokens(s, 0));
                    assert(lexer.diags() =~= spec_lex_diagnostics(s, 0));
                }
                break;
            }
        }
        proof {
            lemma_kept_tokens_wf(s, 0);
        }
        Parser { tokens, position: 0, diagnostics: lexer.diagnostics() }
    }

    /// Read-only lookahead; reading past the end clamps to the final
    /// (`EndOfFile`) token, so lookahead never fails.
    fn peek(&self, offset: usize) -> (token: &SyntaxToken)
        requires
            self.wf(),
            offset <= self.toks().len() - self.pos(),
        ensures
            token@ == tok_cur(self.toks(), self.pos() + offset),
    {
        proof {
            assert(self.tokens.len() == self.tokens@.len());
            assert(self.toks().len() == self.tokens@.len());
        }
        let index = self.position + offset;
        if index >= self.tokens.len() {
            let last = self.tokens.len() - 1;
            &self.tokens[last]
        } else {
            &self.tokens[index]
        }
    }

    /// The token at the cursor, as an owned value.
    fn current(&self) -> (token: SyntaxToken)
        requires
            self.wf(),
        ensures
            token@ == tok_cur(self.toks(), self.pos()),
    {
        self.peek(0).duplicate()
    }

    /// Return the current token and advance the cursor by one.
    fn next_token(&mut self) -> (token: SyntaxToken)
        requires
            old(self).wf(),
        ensures
            final(self).toks() == old(self).toks(),
            final(self).diags() == old(self).diags(),
            token@ == tok_cur(old(self).toks(), old(self).pos()),
            final(self).pos() == old(self).pos() + 1,
            final(self).pos() <= old(self).toks().len(),
            token@.kind != SyntaxKind::EndOfFile ==> final(self).wf(),
    {
        let current = self.current();
        proof {
            assert(self.tokens.len() == self.tokens@.len());
            assert(self.toks().len() == self.tokens@.len());
        }
        self.position += 1;
        current
    }

    /// If the current token has kind `kind`, consume and return it;
    /// otherwise report an unexpected token and return a zero-width
    /// synthetic token of kind `kind` at the current position, consuming
    /// nothing.
    fn match_token(&mut self, kind: SyntaxKind) -> (token: SyntaxToken)
        requires
            old(self).wf(),
        ensures
            final(self).toks() == old(self).toks(),
            ({
                let (t, p, d) = sp_match(old(self).toks(), old(self).pos(), kind);
                &&& token@ == t
                &&& final(self).pos() == p
                &&& final(self).diags() == old(self).diags() + d
            }),
            old(self).pos() <= final(self).pos() <= old(self).toks().len(),
            kind != SyntaxKind::EndOfFile ==> final(self).wf(),
    {
        let current = self.current();
        if current.kind == kind {
            let token = self.next_token();
            proof {
                assert(self.diags() =~= old(self).diags() + Seq::<Diagnostic>::empty());
            }
            token
        } else {
            let span = current.span();
            self.diagnostics.report_unexpected_token(span, current.kind, kind);
            proof {
                let c = tok_cur(old(self).toks(), old(self).pos());
                assert(self.diags() =~= old(self).diags() + seq![
                    spec_unexpected_token(c.span(), c.kind, kind),
                ]);
            }
            SyntaxToken::new(kind, current.position, String::new(), None)
        }
    }

    /// A numeric literal: `match_token(Number)`; on any other token this
    /// reports the mismatch and yields the placeholder literal.
    fn parse_numeric_literal(&mut self) -> (result: ExpressionSyntax)
        requires
            old(self).wf(),
        ensures
            final(self).wf(),
            final(self).toks() == old(self).toks(),
            old(self).pos() <= final(self).pos(),
            ({
                let (node, p, d) = sp_numeric_literal(old(self).toks(), old(self).pos());
                &&& result.deep_view() == node
                &&& final(self).pos() == p
                &&& final(self).diags() == old(self).diags() + d
            }),
    {
        let literal_token = self.match_token(SyntaxKind::Number);
        let value = literal_token.value;
        ExpressionSyntax::Literal { literal_token, value }
    }

    /// A name expression.
    fn parse_name_expression(&mut self) -> (result: ExpressionSyntax)
        requires
            old(self).wf(),
        ensures
            final(self).wf(),
            final(self).toks() == old(self).toks(),
            old(self).pos() <= final(self).pos(),
            ({
                let (node, p, d) = sp_name_expression(old(self).toks(), old(self).pos());
                &&& result.deep_view() == node
                &&& final(self).pos() == p
                &&& final(self).diags() == old(self).diags() + d
            }),
    {
        let identifier_token = self.match_token(SyntaxKind::Identifier);
        ExpressionSyntax::Name { identifier_token }
    }

    /// A boolean literal, decoded from the keyword.
    fn parse_boolean_expression(&mut self) -> (result: ExpressionSyntax)
        requires
            old(self).wf(),
        ensures
            final(self).wf(),
            final(self).toks() == old(self).toks(),
            old(self).pos() <= final(self).pos(),
            ({
                let (node, p, d) = sp_boolean_expression(old(self).toks(), old(self).pos());
                &&& result.deep_view() == node
                &&& final(self).pos() == p
                &&& final(self).diags() == old(self).diags() + d
            }),
    {
        let is_true = self.current().kind == SyntaxKind::TrueKeyword;
        let literal_token = if is_true {
            self.match_token(SyntaxKind::TrueKeyword)
        } else {
            self.match_token(SyntaxKind::FalseKeyword)
        };
        ExpressionSyntax::Literal {
            literal_token,
            value: Some(crate::token::MinskValue::Boolean(is_true)),
        }
    }

    /// `( expression )`.
    fn parse_parenthesized_expression(&mut self) -> (result: ExpressionSyntax)
        requires
            old(self).wf(),
            tok_cur(old(self).toks(), old(self).pos()).kind == SyntaxKind::OpenParenthesis,
        ensures
            final(self).wf(),
            final(self).toks() == old(self).toks(),
            old(self).pos() <= final(self).pos(),
            ({
                let (node, p, d) = sp_parenthesized_expression(old(self).toks(), old(self).pos());
                &&& result.deep_view() == node
                &&& final(self).pos() == p
                &&& final(self).diags() == old(self).diags() + d
            }),
        decreases rem(old(self).toks(), old(self).pos()), 0int,
    {
        let open_parenthesis_token = self.next_token();
        let expression = self.parse_expression();
        let close_parenthesis_token = self.match_token(SyntaxKind::CloseParenthesis);
        proof {
            let (node, p, d) = sp_parenthesized_expression(old(self).toks(), old(self).pos());
            let (inner, p1, d1) = sp_expression(old(self).toks(), old(self).pos() + 1);
            let (close, p2, d2) = sp_match(old(self).toks(), p1, SyntaxKind::CloseParenthesis);
            assert(old(self).diags() + (d1 + d2) =~= (old(self).diags() + d1) + d2);
        }
        ExpressionSyntax::Parenthesized {
            open_parenthesis_token,
            expression: Box::new(expression),
            close_parenthesis_token,
        }
    }

    /// A primary expression, dispatched on the current token kind; any kind
    /// that starts no primary expression falls through to the numeric
    /// literal parse, whose failed match is the universal recovery path.
    fn parse_primary_expression(&mut self) -> (result: ExpressionSyntax)
        requires
            old(self).wf(),
        ensures
            final(self).wf(),
            final(self).toks() == old(self).toks(),
            old(self).pos() <= final(self).pos(),
            ({
                let (node, p, d) = sp_primary_expression(old(self).toks(), old(self).pos());
                &&& result.deep_view() == node
                &&& final(self).pos() == p
                &&& final(self).diags() == old(self).diags() + d
            }),
        decreases rem(old(self).toks(), old(self).pos()), 1int,
    {
        match self.current().kind {
            SyntaxKind::OpenParenthesis => self.parse_parenthesized_expression(),
            SyntaxKind::TrueKeyword => self.parse_boolean_expression(),
            SyntaxKind::FalseKeyword => self.parse_boolean_expression(),
            SyntaxKind::Number => self.parse_numeric_literal(),
            SyntaxKind::Identifier => self.parse_name_expression(),
            _ => self.parse_numeric_literal(),
        }
    }

    /// Precedence climbing: an eligible prefix operator binds a recursively
    /// parsed operand, otherwise the left operand is a primary expression;
    /// then operators binding tighter than `parent_precedence` are folded
    /// into left-associative `Binary` nodes.
    fn parse_binary_expression(&mut self, parent_precedence: usize) -> (result: ExpressionSyntax)
        requires
            old(self).wf(),
        ensures
            final(self).wf(),
            final(self).toks() == old(self).toks(),
            old(self).pos() <= final(self).pos(),
            ({
                let (node, p, d) = sp_binary_expression(
                    old(self).toks(),
                    old(self).pos(),
                    parent_precedence as nat,
                );
                &&& result.deep_view() == node
                &&& final(self).pos() == p
                &&& final(self).diags() == old(self).diags() + d
            }),
        decreases rem(old(self).toks(), old(self).pos()), 2int,
    {
        let ghost toks0 = old(self).toks();
        let ghost pos0 = old(self).pos();
        let ghost diags0 = old(self).diags();
        let ghost par = parent_precedence as nat;
        let ghost target = sp_binary_expression(toks0, pos0, par);
        let unary_operator_precedence = self.current().kind.unary_operator_precedence();
        let mut left = if unary_operator_precedence != 0 && unary_operator_precedence
            >= parent_precedence {
            let operator_token = self.next_token();
            let operand = self.parse_binary_expression(unary_operator_precedence);
            ExpressionSyntax::Unary { operator_token, operand: Box::new(operand) }
        } else {
            self.parse_primary_expression()
        };
        proof {
            let (left0, p1, d1) = if spec_unary_operator_precedence(tok_cur(toks0, pos0).kind)
                != 0 && spec_unary_operator_precedence(tok_cur(toks0, pos0).kind) >= par {
                let (operand, p1, d1) = sp_binary_expression(
                    toks0,
                    pos0 + 1,
                    spec_unary_operator_precedence(tok_cur(toks0, pos0).kind),
                );
                (
                    Expr::Unary {
                        operator_token: tok_cur(toks0, pos0),
                        operand: Box::new(operand),
                    },
                    p1,
                    d1,
                )
            } else {
                sp_primary_expression(toks0, pos0)
            };
            assert(left.deep_view() == left0);
            assert(step_bound(toks0, pos0, p1) == p1);
            if spec_unary_operator_precedence(tok_cur(toks0, pos0).kind) != 0
                && spec_unary_operator_precedence(tok_cur(toks0, pos0).kind) >= par {
                assert(step_bound(toks0, pos0 + 1, p1) == p1);
            }
            let (node, p2, d2) = sp_binary_loop(toks0, p1, par, left0);
            assert(node == target.0);
            assert(p2 == target.1);
            assert(diags0 + target.2 =~= self.diags() + d2);
        }
        loop
            invariant_except_break
                toks0 == old(self).toks(),
                pos0 == old(self).pos(),
                diags0 == old(self).diags(),
                par == parent_precedence as nat,
                target == sp_binary_expression(toks0, pos0, par),
                self.wf(),
                self.toks() == toks0,
                pos0 <= self.pos(),
                sp_binary_loop(toks0, self.pos(), par, left.deep_view()).0 == target.0,
                sp_binary_loop(toks0, self.pos(), par, left.deep_view()).1 == target.1,
                diags0 + target.2 =~= self.diags() + sp_binary_loop(
                    toks0,
                    self.pos(),
                    par,
                    left.deep_view(),
                ).2,
            ensures
                self.wf(),
                self.toks() == toks0,
                pos0 <= self.pos(),
                left.deep_view() == target.0,
                self.pos() == target.1,
                self.diags() == diags0 + target.2,
            decreases rem(toks0, self.pos()),
        {
            let precedence = self.current().kind.binary_operator_precedence();
            proof {
                assert(precedence == spec_binary_operator_precedence(
                    tok_cur(toks0, self.pos()).kind,
                ));
            }
            if precedence == 0 || precedence <= parent_precedence {
                proof {
                    let pnow = self.pos();
                    let lnow = left.deep_view();
                    assert(sp_binary_loop(toks0, pnow, par, lnow) == (
                        lnow,
                        pnow,
                        Seq::<Diagnostic>::empty(),
                    ));
                    assert(self.diags() + Seq::<Diagnostic>::empty() =~= self.diags());
                    assert(self.diags() == diags0 + target.2);
                }
                break;
            }
            let ghost p = self.pos();
            let ghost left_model = left.deep_view();
            let ghost diags_before = self.diags();
            let operator_token = self.next_token();
            let right = self.parse_binary_expression(precedence);
            left = ExpressionSyntax::Binary {
                left: Box::new(left),
                operator_token,
                right: Box::new(right),
            };
            proof {
                let prec = spec_binary_operator_precedence(tok_cur(toks0, p).kind);
                let (right0, p1, d1) = sp_binary_expression(toks0, p + 1, prec);
                assert(step_bound(toks0, p + 1, p1) == p1);
                let (node, p2, d2) = sp_binary_loop(toks0, p1, par, left.deep_view());
                assert(sp_binary_loop(toks0, p, par, left_model).0 == node);
                assert(sp_binary_loop(toks0, p, par, left_model).1 == p2);
                assert(sp_binary_loop(toks0, p, par, left_model).2 == d1 + d2);
                assert(diags_before + (d1 + d2) =~= (diags_before + d1) + d2);
            }
        }
        left
    }

    /// Assignment parsing: a name directly followed by `=` starts a
    /// right-associatively chained assignment; everything else is binary
    /// expression parsing with parent precedence 0.
    fn parse_assignment_expression(&mut self) -> (result: ExpressionSyntax)
        requires
            old(self).wf(),
        ensures
            final(self).wf(),
            final(self).toks() == old(self).toks(),
            old(self).pos() <= final(self).pos(),
            ({
                let (node, p, d) = sp_assignment_expression(old(self).toks(), old(self).pos());
                &&& result.deep_view() == node
                &&& final(self).pos() == p
                &&& final(self).diags() == old(self).diags() + d
            }),
        decreases rem(old(self).toks(), old(self).pos()), 3int,
    {
        if self.peek(0).kind == SyntaxKind::Identifier && self.peek(1).kind == SyntaxKind::Equals {
            let identifier_token = self.next_token();
            let equals_token = self.next_token();
            let expression = self.parse_assignment_expression();
            ExpressionSyntax::Assignment {
                identifier_token,
                equals_token,
                expression: Box::new(expression),
            }
        } else {
            self.parse_binary_expression(0)
        }
    }

    /// An expression.
    fn parse_expression(&mut self) -> (result: ExpressionSyntax)
        requires
            old(self).wf(),
        ensures
            final(self).wf(),
            final(self).toks() == old(self).toks(),
            old(self).pos() <= final(self).pos(),
            ({
                let (node, p, d) = sp_expression(old(self).toks(), old(self).pos());
                &&& result.deep_view() == node
                &&& final(self).pos() == p
                &&& final(self).diags() == old(self).diags() + d
            }),
        decreases rem(old(self).toks(), old(self).pos()), 4int,
    {
        self.parse_assignment_expression()
    }

    /// A bare expression as a statement.
    fn parse_expression_statement(&mut self) -> (result: StatementSyntax)
        requires
            old(self).wf(),
        ensures
            final(self).wf(),
            final(self).toks() == old(self).toks(),
            old(self).pos() <= final(self).pos(),
            ({
                let (node, p, d) = sp_expression_statement(old(self).toks(), old(self).pos());
                &&& result.deep_view() == node
                &&& final(self).pos() == p
                &&& final(self).diags() == old(self).diags() + d
            }),
        decreases rem(old(self).toks(), old(self).pos()), 8int,
    {
        let expression = self.parse_expression();
        StatementSyntax::Expression { expression }
    }

    /// `let name = initializer` or `var name = initializer`.
    #[verifier::spinoff_prover]
    #[verifier::rlimit(60)]
    fn parse_variable_declaration(&mut self) -> (result: StatementSyntax)
        requires
            old(self).wf(),
        ensures
            final(self).wf(),
            final(self).toks() == old(self).toks(),
            old(self).pos() <= final(self).pos(),
            ({
                let (node, p, d) = sp_variable_declaration(old(self).toks(), old(self).pos());
                &&& result.deep_view() == node
                &&& final(self).pos() == p
                &&& final(self).diags() == old(self).diags() + d
            }),
        decreases rem(old(self).toks(), old(self).pos()), 8int,
    {
        let expected = if self.current().kind == SyntaxKind::LetKeyword {
            SyntaxKind::LetKeyword
        } else {
            SyntaxKind::VarKeyword
        };
        let keyword = self.match_token(expected);
        let identifier = self.match_token(SyntaxKind::Identifier);
        let equals_token = self.match_token(SyntaxKind::Equals);
        let initializer = self.parse_expression();
        proof {
            let toks0 = old(self).toks();
            let pos0 = old(self).pos();
            let kind0 = if tok_cur(toks0, pos0).kind == SyntaxKind::LetKeyword {
                SyntaxKind::LetKeyword
            } else {
                SyntaxKind::VarKeyword
            };
            let (kw, p1, d1) = sp_match(toks0, pos0, kind0);
            let (id, p2, d2) = sp_match(toks0, p1, SyntaxKind::Identifier);
            let (eq, p3, d3) = sp_match(toks0, p2, SyntaxKind::Equals);
            assert(step_bound(toks0, pos0, p3) == p3);
            let (init, p4, d4) = sp_expression(toks0, p3);
            assert(old(self).diags() + (d1 + d2 + d3 + d4) =~= (((old(self).diags() + d1) + d2)
                + d3) + d4);
        }
        StatementSyntax::VariableDeclaration { keyword, identifier, equals_token, initializer }
    }

    /// The optional `else` clause: present exactly when the current token is
    /// the `else` keyword.
    fn parse_optional_else_clause(&mut self) -> (result: Option<ElseClauseSyntax>)
        requires
            old(self).wf(),
        ensures
            final(self).wf(),
            final(self).toks() == old(self).toks(),
            old(self).pos() <= final(self).pos(),
            ({
                let (node, p, d) = sp_optional_else_clause(old(self).toks(), old(self).pos());
                &&& result.deep_view() == node
                &&& final(self).pos() == p
                &&& final(self).diags() == old(self).diags() + d
            }),
        decreases rem(old(self).toks(), old(self).pos()), 7int,
    {
        if self.current().kind != SyntaxKind::ElseKeyword {
            proof {
                assert(self.diags() =~= old(self).diags() + Seq::<Diagnostic>::empty());
            }
            return None;
        }
        let keyword = self.next_token();
        let statement = self.parse_statement();
        Some(ElseClauseSyntax { keyword, statement: Box::new(statement) })
    }

    /// `if condition body`, with an optional `else` clause.
    #[verifier::spinoff_prover]
    #[verifier::rlimit(100)]
    fn parse_if_statement(&mut self) -> (result: StatementSyntax)
        requires
            old(self).wf(),
            tok_cur(old(self).toks(), old(self).pos()).kind == SyntaxKind::IfKeyword,
        ensures
            final(self).wf(),
            final(self).toks() == old(self).toks(),
            old(self).pos() <= final(self).pos(),
            ({
                let (node, p, d) = sp_if_statement(old(self).toks(), old(self).pos());
                &&& result.deep_view() == node
                &&& final(self).pos() == p
                &&& final(self).diags() == old(self).diags() + d
            }),
        decreases rem(old(self).toks(), old(self).pos()), 8int,
    {
        let keyword = self.match_token(SyntaxKind::IfKeyword);
        let condition = self.parse_expression();
        let body = self.parse_statement();
        let else_clause = self.parse_optional_else_clause();
        proof {
            let toks0 = old(self).toks();
            let pos0 = old(self).pos();
            let (kw, p1, d1) = sp_match(toks0, pos0, SyntaxKind::IfKeyword);
            assert(step_bound(toks0, pos0, p1) == p1);
            let (cond, p2, d2) = sp_expression(toks0, p1);
            assert(step_bound(toks0, pos0 + 1, p2) == p2);
            let (body0, p3, d3) = sp_statement(toks0, p2);
            assert(step_bound(toks0, pos0, p3) == p3);
            let (els, p4, d4) = sp_optional_else_clause(toks0, p3);
            assert(old(self).diags() + (d1 + d2 + d3 + d4) =~= (((old(self).diags() + d1) + d2)
                + d3) + d4);
        }
        StatementSyntax::If { keyword, condition, body: Box::new(body), else_clause }
    }

    /// `while condition body`.
    fn parse_while_statement(&mut self) -> (result: StatementSyntax)
        requires
            old(self).wf(),
            tok_cur(old(self).toks(), old(self).pos()).kind == SyntaxKind::WhileKeyword,
        ensures
            final(self).wf(),
            final(self).toks() == old(self).toks(),
            old(self).pos() <= final(self).pos(),
            ({
                let (node, p, d) = sp_while_statement(old(self).toks(), old(self).pos());
                &&& result.deep_view() == node
                &&& final(self).pos() == p
                &&& final(self).diags() == old(self).diags() + d
            }),
        decreases rem(old(self).toks(), old(self).pos()), 8int,
    {
        let keyword = self.match_token(SyntaxKind::WhileKeyword);
        let condition = self.parse_expression();
        let body = self.parse_statement();
        proof {
            let toks0 = old(self).toks();
            let pos0 = old(self).pos();
            let (kw, p1, d1) = sp_match(toks0, pos0, SyntaxKind::WhileKeyword);
            assert(step_bound(toks0, pos0, p1) == p1);
            let (cond, p2, d2) = sp_expression(toks0, p1);
            assert(step_bound(toks0, pos0 + 1, p2) == p2);
            let (body0, p3, d3) = sp_statement(toks0, p2);
            assert(old(self).diags() + (d1 + d2 + d3) =~= ((old(self).diags() + d1) + d2) + d3);
        }
        StatementSyntax::While { keyword, condition, body: Box::new(body) }
    }

    /// `for name = lower to upper body`.
    #[verifier::spinoff_prover]
    #[verifier::rlimit(100)]
    fn parse_for_statement(&mut self) -> (result: StatementSyntax)
        requires
            old(self).wf(),
            tok_cur(old(self).toks(), old(self).pos()).kind == SyntaxKind::ForKeyword,
        ensures
            final(self).wf(),
            final(self).toks() == old(self).toks(),
            old(self).pos() <= final(self).pos(),
            ({
                let (node, p, d) = sp_for_statement(old(self).toks(), old(self).pos());
                &&& result.deep_view() == node
                &&& final(self).pos() == p
                &&& final(self).diags() == old(self).diags() + d
            }),
        decreases rem(old(self).toks(), old(self).pos()), 8int,
    {
        let keyword = self.match_token(SyntaxKind::ForKeyword);
        let identifier = self.match_token(SyntaxKind::Identifier);
        let equals_token = self.match_token(SyntaxKind::Equals);
        let lower_bound = self.parse_expression();
        let to_token = self.match_token(SyntaxKind::ToKeyword);
        let upper_bound = self.parse_expression();
        let body = self.parse_statement();
        proof {
            let toks0 = old(self).toks();
            let pos0 = old(self).pos();
            let (kw, p1, d1) = sp_match(toks0, pos0, SyntaxKind::ForKeyword);
            let (id, p2, d2) = sp_match(toks0, p1, SyntaxKind::Identifier);
            let (eq, p3, d3) = sp_match(toks0, p2, SyntaxKind::Equals);
            assert(step_bound(toks0, pos0, p3) == p3);
            let (lo, p4, d4) = sp_expression(toks0, p3);
            let (to0, p5, d5) = sp_match(toks0, p4, SyntaxKind::ToKeyword);
            assert(step_bound(toks0, pos0, p5) == p5);
            let (hi, p6, d6) = sp_expression(toks0, p5);
            assert(step_bound(toks0, pos0 + 1, p6) == p6);
            let (body0, p7, d7) = sp_statement(toks0, p6);
            assert(keyword@ == kw);
            assert(identifier@ == id);
            assert(equals_token@ == eq);
            assert(lower_bound.deep_view() == lo);
            assert(to_token@ == to0);
            assert(upper_bound.deep_view() == hi);
            assert(body.deep_view() == body0);
            assert(self.pos() == p7);
            assert(sp_for_statement(toks0, pos0) == (
                Stmt::For {
                    keyword: kw,
                    identifier: id,
                    equals_token: eq,
                    lower_bound: Box::new(lo),
                    to_token: to0,
                    upper_bound: Box::new(hi),
                    body: Box::new(body0),
                },
                p7,
                d1 + d2 + d3 + d4 + d5 + d6 + d7,
            ));
            assert(old(self).diags() + (d1 + d2 + d3 + d4 + d5 + d6 + d7) =~= ((((((old(
                self,
            ).diags() + d1) + d2) + d3) + d4) + d5) + d6) + d7);
        }
        StatementSyntax::For {
            keyword,
            identifier,
            equals_token,
            lower_bound: Box::new(lower_bound),
            to_token,
            upper_bound: Box::new(upper_bound),
            body: Box::new(body),
        }
    }

    /// `{ statements }`: parse statements until `}` or the end of the input.
    /// A statement production that consumed nothing is followed by a forced
    /// one-token advance (without a diagnostic of its own: the failed
    /// sub-parse already reported one), so the loop always progresses.
    fn parse_block_statement(&mut self) -> (result: StatementSyntax)
        requires
            old(self).wf(),
            tok_cur(old(self).toks(), old(self).pos()).kind == SyntaxKind::OpenBrace,
        ensures
            final(self).wf(),
            final(self).toks() == old(self).toks(),
            old(self).pos() <= final(self).pos(),
            ({
                let (node, p, d) = sp_block_statement(old(self).toks(), old(self).pos());
                &&& result.deep_view() == node
                &&& final(self).pos() == p
                &&& final(self).diags() == old(self).diags() + d
            }),
        decreases rem(old(self).toks(), old(self).pos()), 8int,
    {
        let ghost toks0 = old(self).toks();
        let ghost pos0 = old(self).pos();
        let mut statements: Vec<StatementSyntax> = Vec::new();
        let open_brace_token = self.match_token(SyntaxKind::OpenBrace);
        let ghost items = sp_block_items(toks0, pos0 + 1);
        let ghost diags_open = self.diags();
        proof {
            assert(step_bound(toks0, pos0 + 1, self.pos()) == pos0 + 1);
        }
        loop
            invariant_except_break
                toks0 == old(self).toks(),
                pos0 == old(self).pos(),
                items == sp_block_items(toks0, pos0 + 1),
                self.wf(),
                self.toks() == toks0,
                pos0 + 1 <= self.pos(),
                stmts_deep_view_upto(&statements, statements@.len() as int) + sp_block_items(
                    toks0,
                    self.pos(),
                ).0 =~= items.0,
                sp_block_items(toks0, self.pos()).1 == items.1,
                diags_open + items.2 =~= self.diags() + sp_block_items(toks0, self.pos()).2,
            ensures
                self.wf(),
                self.toks() == toks0,
                pos0 + 1 <= self.pos(),
                stmts_deep_view_upto(&statements, statements@.len() as int) == items.0,
                self.pos() == items.1,
                self.diags() == diags_open + items.2,
            decreases rem(toks0, self.pos()),
        {
            let kind = self.current().kind;
            if kind == SyntaxKind::EndOfFile || kind == SyntaxKind::CloseBrace {
                proof {
                    let pnow = self.pos();
                    assert(sp_block_items(toks0, pnow) == (
                        Seq::<Stmt>::empty(),
                        pnow,
                        Seq::<Diagnostic>::empty(),
                    ));
                    assert(stmts_deep_view_upto(&statements, statements@.len() as int)
                        + Seq::<Stmt>::empty() =~= stmts_deep_view_upto(
                        &statements,
                        statements@.len() as int,
                    ));
                    assert(self.diags() + Seq::<Diagnostic>::empty() =~= self.diags());
                }
                break;
            }
            let ghost p = self.pos();
            let ghost acc = stmts_deep_view_upto(&statements, statements@.len() as int);
            let ghost diags_before = self.diags();
            let ghost prev_statements = statements;
            let start_position = self.position;
            let statement = self.parse_statement();
            statements.push(statement);
            if self.position == start_position {
                let _ = self.next_token();
            }
            proof {
                let (s0, p1, d1) = sp_statement(toks0, p);
                let p2: int = if p1 == p {
                    p + 1
                } else {
                    p1
                };
                assert(self.pos() == p2);
                assert(step_bound(toks0, p + 1, p2) == p2);
                let (rest, p3, d3) = sp_block_items(toks0, p2);
                assert(sp_block_items(toks0, p) == (seq![s0] + rest, p3, d1 + d3));
                lemma_stmts_upto_prefix(
                    &prev_statements,
                    &statements,
                    prev_statements@.len() as int,
                );
                assert(stmts_deep_view_upto(&statements, statements@.len() as int) == acc.push(
                    s0,
                ));
                assert(acc.push(s0) + rest =~= acc + (seq![s0] + rest));
                assert(diags_before + (d1 + d3) =~= (diags_before + d1) + d3);
            }
        }
        let close_brace_token = self.match_token(SyntaxKind::CloseBrace);
        proof {
            let (open0, p1, d1) = sp_match(toks0, pos0, SyntaxKind::OpenBrace);
            let (close0, p3, d3) = sp_match(toks0, items.1, SyntaxKind::CloseBrace);
            assert(diags_open + (items.2 + d3) =~= (diags_open + items.2) + d3);
            assert(old(self).diags() + (d1 + items.2 + d3) =~= diags_open + (items.2 + d3));
        }
        StatementSyntax::Block { open_brace_token, statements, close_brace_token }
    }

    /// A statement, dispatched on the current token kind.
    fn parse_statement(&mut self) -> (result: StatementSyntax)
        requires
            old(self).wf(),
        ensures
            final(self).wf(),
            final(self).toks() == old(self).toks(),
            old(self).pos() <= final(self).pos(),
            ({
                let (node, p, d) = sp_statement(old(self).toks(), old(self).pos());
                &&& result.deep_view() == node
                &&& final(self).pos() == p
                &&& final(self).diags() == old(self).diags() + d
            }),
        decreases rem(old(self).toks(), old(self).pos()), 9int,
    {
        match self.current().kind {
            SyntaxKind::OpenBrace => self.parse_block_statement(),
            SyntaxKind::LetKeyword => self.parse_variable_declaration(),
            SyntaxKind::VarKeyword => self.parse_variable_declaration(),
            SyntaxKind::ForKeyword => self.parse_for_statement(),
            SyntaxKind::IfKeyword => self.parse_if_statement(),
            SyntaxKind::WhileKeyword => self.parse_while_statement(),
            _ => self.parse_expression_statement(),
        }
    }

    /// Parse one whole compilation unit: a single statement, then a
    /// required `EndOfFile`, so trailing input is reported. Never fails and
    /// never panics: every mismatch degrades into a diagnostic plus a
    /// synthetic token, and a tree is always returned.
    pub fn parse_compilation_unit(&mut self) -> (result: CompilationUnit)
        requires
            old(self).wf(),
        ensures
            final(self).toks() == old(self).toks(),
            wf_tokens(final(self).toks()),
            old(self).pos() <= final(self).pos() <= final(self).toks().len(),
            ({
                let (node, p, d) = sp_compilation_unit(old(self).toks(), old(self).pos());
                &&& result.deep_view() == node
                &&& final(self).pos() == p
                &&& final(self).diags() == old(self).diags() + d
            }),
    {
        let statement = self.parse_statement();
        let end_of_file_token = self.match_token(SyntaxKind::EndOfFile);
        proof {
            let toks0 = old(self).toks();
            let pos0 = old(self).pos();
            let (s0, p1, d1) = sp_statement(toks0, pos0);
            let (eof0, p2, d2) = sp_match(toks0, p1, SyntaxKind::EndOfFile);
            assert(old(self).diags() + (d1 + d2) =~= (old(self).diags() + d1) + d2);
        }
        CompilationUnit::new(statement, end_of_file_token)
    }

    /// Hand the diagnostics (lexical and syntactic, one ordered timeline)
    /// over to the caller.
    pub fn diagnostics(self) -> (bag: DiagnosticBag)
        ensures
            bag@ == self.diags(),
    {
        self.diagnostics
    }
}

} // verus!
