//! The laws of the front end, proved against the spec functions that the
//! executable lexer and parser are verified to implement.

use vstd::prelude::*;

use crate::ast::Expr;
use crate::ast::Stmt;
use crate::ast::Unit;
use crate::diagnostics::Diagnostic;
use crate::lexer::eof_tok;
use crate::lexer::is_letter_char;
use crate::lexer::lemma_scan_letter;
use crate::lexer::lemma_scan_operator;
use crate::lexer::spec_kept_tokens;
use crate::lexer::spec_lex;
use crate::lexer::spec_lex_diagnostics;
use crate::parser::sp_compilation_unit;
use crate::parser::sp_expression_statement;
use crate::parser::sp_statement;
use crate::syntax_kind::spec_fixed_text;
use crate::syntax_tree::spec_parse_result;
use crate::parser::sp_assignment_expression;
use crate::parser::sp_binary_expression;
use crate::parser::sp_binary_loop;
use crate::parser::sp_expression;
use crate::parser::sp_match;
use crate::parser::sp_name_expression;
use crate::parser::sp_primary_expression;
use crate::parser::step_bound;
use crate::parser::tok_cur;
use crate::syntax_kind::SyntaxKind;
use crate::syntax_kind::spec_binary_operator_precedence;
use crate::syntax_kind::spec_unary_operator_precedence;
use crate::token::Tok;

verus! {

/// Lexing is a pure function of the source text alone: lexing identical
/// text twice yields element-wise equal token sequences. The executable
/// lexer's contract ties its output to `spec_lex`, so any two runs on the
/// same text agree.
pub proof fn lemma_lex_deterministic(s: Seq<char>, first: Seq<Tok>, second: Seq<Tok>)
    requires
        first == spec_lex(s, 0),
        second == spec_lex(s, 0),
    ensures
        first.len() == second.len(),
        forall|i: int| 0 <= i < first.len() ==> first[i] == second[i],
{
}

/// Left-associativity and precedence grouping of binary operators. For the
/// token sequence of `a op1 b op2 c`: when `op1` binds at least as tightly
/// as `op2` the parse groups to the left, `(a op1 b) op2 c`; when `op2`
/// binds tighter it groups to the right, `a op1 (b op2 c)`. Either way the
/// whole sequence up to `EndOfFile` is consumed and no diagnostic is
/// reported.
pub proof fn lemma_binary_operator_grouping(
    toks: Seq<Tok>,
    a: Tok,
    op1: Tok,
    b: Tok,
    op2: Tok,
    c: Tok,
    eof: Tok,
)
    requires
        toks == seq![a, op1, b, op2, c, eof],
        a.kind == SyntaxKind::Identifier,
        b.kind == SyntaxKind::Identifier,
        c.kind == SyntaxKind::Identifier,
        spec_binary_operator_precedence(op1.kind) > 0,
        spec_binary_operator_precedence(op2.kind) > 0,
        eof.kind == SyntaxKind::EndOfFile,
    ensures
        spec_binary_operator_precedence(op1.kind) >= spec_binary_operator_precedence(op2.kind)
            ==> sp_expression(toks, 0) == (
            Expr::Binary {
                left: Box::new(
                    Expr::Binary {
                        left: Box::new(Expr::Name { identifier_token: a }),
                        operator_token: op1,
                        right: Box::new(Expr::Name { identifier_token: b }),
                    },
                ),
                operator_token: op2,
                right: Box::new(Expr::Name { identifier_token: c }),
            },
            5int,
            Seq::<Diagnostic>::empty(),
        ),
        spec_binary_operator_precedence(op1.kind) < spec_binary_operator_precedence(op2.kind)
            ==> sp_expression(toks, 0) == (
            Expr::Binary {
                left: Box::new(Expr::Name { identifier_token: a }),
                operator_token: op1,
                right: Box::new(
                    Expr::Binary {
                        left: Box::new(Expr::Name { identifier_token: b }),
                        operator_token: op2,
                        right: Box::new(Expr::Name { identifier_token: c }),
                    },
                ),
            },
            5int,
            Seq::<Diagnostic>::empty(),
        ),
{
    let p1 = spec_binary_operator_precedence(op1.kind);
    let p2 = spec_binary_operator_precedence(op2.kind);
    let name_a = Expr::Name { identifier_token: a };
    let name_b = Expr::Name { identifier_token: b };
    let name_c = Expr::Name { identifier_token: c };
    assert(tok_cur(toks, 0) == a);
    assert(tok_cur(toks, 1) == op1);
    assert(tok_cur(toks, 2) == b);
    assert(tok_cur(toks, 3) == op2);
    assert(tok_cur(toks, 4) == c);
    assert(tok_cur(toks, 5) == eof);
    assert(sp_name_expression(toks, 0) == (name_a, 1int, Seq::<Diagnostic>::empty()));
    assert(sp_primary_expression(toks, 0) == (name_a, 1int, Seq::<Diagnostic>::empty()));
    assert(sp_name_expression(toks, 2) == (name_b, 3int, Seq::<Diagnostic>::empty()));
    assert(sp_primary_expression(toks, 2) == (name_b, 3int, Seq::<Diagnostic>::empty()));
    assert(sp_name_expression(toks, 4) == (name_c, 5int, Seq::<Diagnostic>::empty()));
    assert(sp_primary_expression(toks, 4) == (name_c, 5int, Seq::<Diagnostic>::empty()));
    // The right operand of `op2` is always `c` alone: after it only
    // `EndOfFile` follows.
    assert(sp_binary_loop(toks, 5, p2, name_c) == (name_c, 5int, Seq::<Diagnostic>::empty()));
    assert(step_bound(toks, 4, 5) == 5);
    assert(sp_binary_expression(toks, 4, p2) == (name_c, 5int, Seq::<Diagnostic>::empty()));
    if p1 >= p2 {
        // `b` is the whole right operand of `op1`: `op2` does not bind
        // tighter than `op1`, so the climb at precedence `p1` stops at it.
        assert(sp_binary_loop(toks, 3, p1, name_b) == (name_b, 3int, Seq::<Diagnostic>::empty()));
        assert(step_bound(toks, 2, 3) == 3);
        assert(sp_binary_expression(toks, 2, p1) == (name_b, 3int, Seq::<Diagnostic>::empty()));
        let fold1 = Expr::Binary {
            left: Box::new(name_a),
            operator_token: op1,
            right: Box::new(name_b),
        };
        let fold2 = Expr::Binary {
            left: Box::new(fold1),
            operator_token: op2,
            right: Box::new(name_c),
        };
        assert(sp_binary_loop(toks, 5, 0, fold2) == (fold2, 5int, Seq::<Diagnostic>::empty()));
        assert(step_bound(toks, 4, 5) == 5);
        assert(sp_binary_loop(toks, 3, 0, fold1) == (fold2, 5int, Seq::<Diagnostic>::empty()
            + Seq::<Diagnostic>::empty()));
        assert(step_bound(toks, 2, 3) == 3);
        assert(sp_binary_loop(toks, 1, 0, name_a).0 == fold2);
        assert(sp_binary_loop(toks, 1, 0, name_a).1 == 5);
        assert(sp_binary_loop(toks, 1, 0, name_a).2 =~= Seq::<Diagnostic>::empty());
        assert(step_bound(toks, 0, 1) == 1);
        assert(sp_binary_expression(toks, 0, 0).0 == fold2);
        assert(sp_binary_expression(toks, 0, 0).1 == 5);
        assert(sp_binary_expression(toks, 0, 0).2 =~= Seq::<Diagnostic>::empty());
        assert(sp_assignment_expression(toks, 0) == sp_binary_expression(toks, 0, 0));
        assert(sp_expression(toks, 0).2 =~= Seq::<Diagnostic>::empty());
    } else {
        // `op2` binds tighter, so the climb at precedence `p1` consumes it:
        // the right operand of `op1` is `b op2 c`.
        let fold_inner = Expr::Binary {
            left: Box::new(name_b),
            operator_token: op2,
            right: Box::new(name_c),
        };
        assert(step_bound(toks, 4, 5) == 5);
        assert(sp_binary_loop(toks, 5, p1, fold_inner) == (
            fold_inner,
            5int,
            Seq::<Diagnostic>::empty(),
        ));
        assert(sp_binary_loop(toks, 3, p1, name_b).0 == fold_inner);
        assert(sp_binary_loop(toks, 3, p1, name_b).1 == 5);
        assert(sp_binary_loop(toks, 3, p1, name_b).2 =~= Seq::<Diagnostic>::empty());
        assert(step_bound(toks, 2, 3) == 3);
        assert(sp_binary_expression(toks, 2, p1).0 == fold_inner);
        assert(sp_binary_expression(toks, 2, p1).1 == 5);
        assert(sp_binary_expression(toks, 2, p1).2 =~= Seq::<Diagnostic>::empty());
        let fold_outer = Expr::Binary {
            left: Box::new(name_a),
            operator_token: op1,
            right: Box::new(fold_inner),
        };
        assert(sp_binary_loop(toks, 5, 0, fold_outer) == (
            fold_outer,
            5int,
            Seq::<Diagnostic>::empty(),
        ));
        assert(step_bound(toks, 2, 5) == 5);
        assert(sp_binary_loop(toks, 1, 0, name_a).0 == fold_outer);
        assert(sp_binary_loop(toks, 1, 0, name_a).1 == 5);
        assert(sp_binary_loop(toks, 1, 0, name_a).2 =~= Seq::<Diagnostic>::empty());
        assert(step_bound(toks, 0, 1) == 1);
        assert(sp_binary_expression(toks, 0, 0).0 == fold_outer);
        assert(sp_binary_expression(toks, 0, 0).1 == 5);
        assert(sp_binary_expression(toks, 0, 0).2 =~= Seq::<Diagnostic>::empty());
        assert(sp_assignment_expression(toks, 0) == sp_binary_expression(toks, 0, 0));
        assert(sp_expression(toks, 0).2 =~= Seq::<Diagnostic>::empty());
    }
}

/// Interplay of unary and binary operators. For the token sequence of
/// `op1 a op2 b` with `op1` a prefix operator and `op2` a binary operator:
/// when the unary precedence is at least the binary one the unary operator
/// binds only `a`, giving `(op1 a) op2 b`; were the binary operator to bind
/// tighter, the unary operand would be the whole `a op2 b`. The whole
/// sequence up to `EndOfFile` is consumed and no diagnostic is reported.
pub proof fn lemma_unary_operator_grouping(
    toks: Seq<Tok>,
    op1: Tok,
    a: Tok,
    op2: Tok,
    b: Tok,
    eof: Tok,
)
    requires
        toks == seq![op1, a, op2, b, eof],
        a.kind == SyntaxKind::Identifier,
        b.kind == SyntaxKind::Identifier,
        spec_unary_operator_precedence(op1.kind) > 0,
        spec_binary_operator_precedence(op2.kind) > 0,
        eof.kind == SyntaxKind::EndOfFile,
    ensures
        spec_unary_operator_precedence(op1.kind) >= spec_binary_operator_precedence(op2.kind)
            ==> sp_expression(toks, 0) == (
            Expr::Binary {
                left: Box::new(
                    Expr::Unary {
                        operator_token: op1,
                        operand: Box::new(Expr::Name { identifier_token: a }),
                    },
                ),
                operator_token: op2,
                right: Box::new(Expr::Name { identifier_token: b }),
            },
            4int,
            Seq::<Diagnostic>::empty(),
        ),
        spec_unary_operator_precedence(op1.kind) < spec_binary_operator_precedence(op2.kind)
            ==> sp_expression(toks, 0) == (
            Expr::Unary {
                operator_token: op1,
                operand: Box::new(
                    Expr::Binary {
                        left: Box::new(Expr::Name { identifier_token: a }),
                        operator_token: op2,
                        right: Box::new(Expr::Name { identifier_token: b }),
                    },
                ),
            },
            4int,
            Seq::<Diagnostic>::empty(),
        ),
{
    let u = spec_unary_operator_precedence(op1.kind);
    let p2 = spec_binary_operator_precedence(op2.kind);
    let name_a = Expr::Name { identifier_token: a };
    let name_b = Expr::Name { identifier_token: b };
    assert(tok_cur(toks, 0) == op1);
    assert(tok_cur(toks, 1) == a);
    assert(tok_cur(toks, 2) == op2);
    assert(tok_cur(toks, 3) == b);
    assert(tok_cur(toks, 4) == eof);
    // In this grammar every prefix operator outranks every binary operator.
    assert(u >= p2);
    assert(sp_name_expression(toks, 1) == (name_a, 2int, Seq::<Diagnostic>::empty()));
    assert(sp_primary_expression(toks, 1) == (name_a, 2int, Seq::<Diagnostic>::empty()));
    assert(sp_name_expression(toks, 3) == (name_b, 4int, Seq::<Diagnostic>::empty()));
    assert(sp_primary_expression(toks, 3) == (name_b, 4int, Seq::<Diagnostic>::empty()));
    // The unary operand is `a` alone: `op2` does not clear the threshold `u`.
    assert(sp_binary_loop(toks, 2, u, name_a) == (name_a, 2int, Seq::<Diagnostic>::empty()));
    assert(step_bound(toks, 1, 2) == 2);
    assert(sp_binary_expression(toks, 1, u) == (name_a, 2int, Seq::<Diagnostic>::empty()));
    let unary = Expr::Unary { operator_token: op1, operand: Box::new(name_a) };
    // Then the loop at parent precedence 0 folds in `op2 b`.
    assert(sp_binary_loop(toks, 4, p2, name_b) == (name_b, 4int, Seq::<Diagnostic>::empty()));
    assert(step_bound(toks, 3, 4) == 4);
    assert(sp_binary_expression(toks, 3, p2) == (name_b, 4int, Seq::<Diagnostic>::empty()));
    let folded = Expr::Binary {
        left: Box::new(unary),
        operator_token: op2,
        right: Box::new(name_b),
    };
    assert(sp_binary_loop(toks, 4, 0, folded) == (folded, 4int, Seq::<Diagnostic>::empty()));
    assert(step_bound(toks, 3, 4) == 4);
    assert(sp_binary_loop(toks, 2, 0, unary).0 == folded);
    assert(sp_binary_loop(toks, 2, 0, unary).1 == 4);
    assert(sp_binary_loop(toks, 2, 0, unary).2 =~= Seq::<Diagnostic>::empty());
    assert(step_bound(toks, 1, 2) == 2);
    assert(sp_binary_expression(toks, 0, 0).0 == folded);
    assert(sp_binary_expression(toks, 0, 0).1 == 4);
    assert(sp_binary_expression(toks, 0, 0).2 =~= Seq::<Diagnostic>::empty());
    assert(sp_assignment_expression(toks, 0) == sp_binary_expression(toks, 0, 0));
    assert(sp_expression(toks, 0).2 =~= Seq::<Diagnostic>::empty());
}

/// The filtered token sequence of a five-character text `a op1 b op2 c`:
/// three one-letter identifiers, the two operator tokens, `EndOfFile`, and
/// no diagnostic.
pub proof fn lemma_lex_infix_text(s: Seq<char>, k1: SyntaxKind, k2: SyntaxKind)
    requires
        s.len() == 5,
        is_letter_char(s[0]),
        is_letter_char(s[2]),
        is_letter_char(s[4]),
        spec_binary_operator_precedence(k1) > 0,
        spec_fixed_text(k1) == Some(seq![s[1]]),
        spec_binary_operator_precedence(k2) > 0,
        spec_fixed_text(k2) == Some(seq![s[3]]),
    ensures
        spec_kept_tokens(s, 0) == seq![
            Tok { kind: SyntaxKind::Identifier, position: 0, text: seq![s[0]], value: None },
            Tok { kind: k1, position: 1, text: seq![s[1]], value: None },
            Tok { kind: SyntaxKind::Identifier, position: 2, text: seq![s[2]], value: None },
            Tok { kind: k2, position: 3, text: seq![s[3]], value: None },
            Tok { kind: SyntaxKind::Identifier, position: 4, text: seq![s[4]], value: None },
            eof_tok(s),
        ],
        spec_lex_diagnostics(s, 0) == Seq::<Diagnostic>::empty(),
{
    lemma_scan_operator(s, 1, k1);
    lemma_scan_operator(s, 3, k2);
    lemma_scan_letter(s, 0);
    lemma_scan_letter(s, 2);
    lemma_scan_letter(s, 4);
    let t0 = Tok { kind: SyntaxKind::Identifier, position: 0, text: seq![s[0]], value: None };
    let t1 = Tok { kind: k1, position: 1, text: seq![s[1]], value: None };
    let t2 = Tok { kind: SyntaxKind::Identifier, position: 2, text: seq![s[2]], value: None };
    let t3 = Tok { kind: k2, position: 3, text: seq![s[3]], value: None };
    let t4 = Tok { kind: SyntaxKind::Identifier, position: 4, text: seq![s[4]], value: None };
    assert(spec_kept_tokens(s, 5) == seq![eof_tok(s)]);
    assert(spec_kept_tokens(s, 4) == seq![t4] + spec_kept_tokens(s, 5));
    assert(spec_kept_tokens(s, 3) == seq![t3] + spec_kept_tokens(s, 4));
    assert(spec_kept_tokens(s, 2) == seq![t2] + spec_kept_tokens(s, 3));
    assert(spec_kept_tokens(s, 1) == seq![t1] + spec_kept_tokens(s, 2));
    assert(spec_kept_tokens(s, 0) == seq![t0] + spec_kept_tokens(s, 1));
    assert(spec_kept_tokens(s, 0) =~= seq![t0, t1, t2, t3, t4, eof_tok(s)]);
    assert(spec_lex_diagnostics(s, 5) == Seq::<Diagnostic>::empty());
    assert(spec_lex_diagnostics(s, 4) == Seq::<Diagnostic>::empty() + spec_lex_diagnostics(s, 5));
    assert(spec_lex_diagnostics(s, 3) == Seq::<Diagnostic>::empty() + spec_lex_diagnostics(s, 4));
    assert(spec_lex_diagnostics(s, 2) == Seq::<Diagnostic>::empty() + spec_lex_diagnostics(s, 3));
    assert(spec_lex_diagnostics(s, 1) == Seq::<Diagnostic>::empty() + spec_lex_diagnostics(s, 2));
    assert(spec_lex_diagnostics(s, 0) == Seq::<Diagnostic>::empty() + spec_lex_diagnostics(s, 1));
    assert(spec_lex_diagnostics(s, 0) =~= Seq::<Diagnostic>::empty());
}

/// The binary grouping law over raw source text. For a five-character text
/// `a op1 b op2 c` the whole pipeline — lexing, then parsing — yields an
/// expression statement grouped by the operators' precedences, the real
/// `EndOfFile` token, and not one diagnostic.
#[verifier::spinoff_prover]
#[verifier::rlimit(100)]
pub proof fn lemma_binary_operator_grouping_in_source(s: Seq<char>, k1: SyntaxKind, k2: SyntaxKind)
    requires
        s.len() == 5,
        is_letter_char(s[0]),
        is_letter_char(s[2]),
        is_letter_char(s[4]),
        spec_binary_operator_precedence(k1) > 0,
        spec_fixed_text(k1) == Some(seq![s[1]]),
        spec_binary_operator_precedence(k2) > 0,
        spec_fixed_text(k2) == Some(seq![s[3]]),
    ensures
        spec_parse_result(s).1 == Seq::<Diagnostic>::empty(),
        spec_parse_result(s).0.end_of_file_token == eof_tok(s),
        spec_binary_operator_precedence(k1) >= spec_binary_operator_precedence(k2)
            ==> spec_parse_result(s).0.statement == (Stmt::Expression {
            expression: Expr::Binary {
                left: Box::new(
                    Expr::Binary {
                        left: Box::new(
                            Expr::Name {
                                identifier_token: Tok {
                                    kind: SyntaxKind::Identifier,
                                    position: 0,
                                    text: seq![s[0]],
                                    value: None,
                                },
                            },
                        ),
                        operator_token: Tok {
                            kind: k1,
                            position: 1,
                            text: seq![s[1]],
                            value: None,
                        },
                        right: Box::new(
                            Expr::Name {
                                identifier_token: Tok {
                                    kind: SyntaxKind::Identifier,
                                    position: 2,
                                    text: seq![s[2]],
                                    value: None,
                                },
                            },
                        ),
                    },
                ),
                operator_token: Tok { kind: k2, position: 3, text: seq![s[3]], value: None },
                right: Box::new(
                    Expr::Name {
                        identifier_token: Tok {
                            kind: SyntaxKind::Identifier,
                            position: 4,
                            text: seq![s[4]],
                            value: None,
                        },
                    },
                ),
            },
        }),
        spec_binary_operator_precedence(k1) < spec_binary_operator_precedence(k2)
            ==> spec_parse_result(s).0.statement == (Stmt::Expression {
            expression: Expr::Binary {
                left: Box::new(
                    Expr::Name {
                        identifier_token: Tok {
                            kind: SyntaxKind::Identifier,
                            position: 0,
                            text: seq![s[0]],
                            value: None,
                        },
                    },
                ),
                operator_token: Tok { kind: k1, position: 1, text: seq![s[1]], value: None },
                right: Box::new(
                    Expr::Binary {
                        left: Box::new(
                            Expr::Name {
                                identifier_token: Tok {
                                    kind: SyntaxKind::Identifier,
                                    position: 2,
                                    text: seq![s[2]],
                                    value: None,
                                },
                            },
                        ),
                        operator_token: Tok {
                            kind: k2,
                            position: 3,
                            text: seq![s[3]],
                            value: None,
                        },
                        right: Box::new(
                            Expr::Name {
                                identifier_token: Tok {
                                    kind: SyntaxKind::Identifier,
                                    position: 4,
                                    text: seq![s[4]],
                                    value: None,
                                },
                            },
                        ),
                    },
                ),
            },
        }),
{
    lemma_lex_infix_text(s, k1, k2);
    let toks = spec_kept_tokens(s, 0);
    let a = Tok { kind: SyntaxKind::Identifier, position: 0, text: seq![s[0]], value: None };
    let op1 = Tok { kind: k1, position: 1, text: seq![s[1]], value: None };
    let b = Tok { kind: SyntaxKind::Identifier, position: 2, text: seq![s[2]], value: None };
    let op2 = Tok { kind: k2, position: 3, text: seq![s[3]], value: None };
    let c = Tok { kind: SyntaxKind::Identifier, position: 4, text: seq![s[4]], value: None };
    lemma_binary_operator_grouping(toks, a, op1, b, op2, c, eof_tok(s));
    assert(tok_cur(toks, 0) == a);
    let (expr, p1, d1) = sp_expression(toks, 0);
    assert(sp_expression_statement(toks, 0) == (Stmt::Expression { expression: expr }, p1, d1));
    assert(sp_statement(toks, 0) == sp_expression_statement(toks, 0));
    assert(tok_cur(toks, 5) == eof_tok(s));
    assert(sp_match(toks, 5, SyntaxKind::EndOfFile) == (eof_tok(s), 6int, Seq::<
        Diagnostic,
    >::empty()));
    assert(sp_compilation_unit(toks, 0).0 == (Unit {
        statement: Stmt::Expression { expression: expr },
        end_of_file_token: eof_tok(s),
    }));
    assert(sp_compilation_unit(toks, 0).2 =~= Seq::<Diagnostic>::empty());
    assert(spec_parse_result(s).1 =~= Seq::<Diagnostic>::empty());
}

/// The filtered token sequence of a four-character text `op1 a op2 b`: the
/// prefix operator, two one-letter identifiers around the binary operator,
/// `EndOfFile`, and no diagnostic.
pub proof fn lemma_lex_prefix_text(s: Seq<char>, k1: SyntaxKind, k2: SyntaxKind)
    requires
        s.len() == 4,
        spec_unary_operator_precedence(k1) > 0,
        spec_fixed_text(k1) == Some(seq![s[0]]),
        is_letter_char(s[1]),
        spec_binary_operator_precedence(k2) > 0,
        spec_fixed_text(k2) == Some(seq![s[2]]),
        is_letter_char(s[3]),
    ensures
        spec_kept_tokens(s, 0) == seq![
            Tok { kind: k1, position: 0, text: seq![s[0]], value: None },
            Tok { kind: SyntaxKind::Identifier, position: 1, text: seq![s[1]], value: None },
            Tok { kind: k2, position: 2, text: seq![s[2]], value: None },
            Tok { kind: SyntaxKind::Identifier, position: 3, text: seq![s[3]], value: None },
            eof_tok(s),
        ],
        spec_lex_diagnostics(s, 0) == Seq::<Diagnostic>::empty(),
{
    lemma_scan_operator(s, 0, k1);
    lemma_scan_operator(s, 2, k2);
    lemma_scan_letter(s, 1);
    lemma_scan_letter(s, 3);
    let t0 = Tok { kind: k1, position: 0, text: seq![s[0]], value: None };
    let t1 = Tok { kind: SyntaxKind::Identifier, position: 1, text: seq![s[1]], value: None };
    let t2 = Tok { kind: k2, position: 2, text: seq![s[2]], value: None };
    let t3 = Tok { kind: SyntaxKind::Identifier, position: 3, text: seq![s[3]], value: None };
    assert(spec_kept_tokens(s, 4) == seq![eof_tok(s)]);
    assert(spec_kept_tokens(s, 3) == seq![t3] + spec_kept_tokens(s, 4));
    assert(spec_kept_tokens(s, 2) == seq![t2] + spec_kept_tokens(s, 3));
    assert(spec_kept_tokens(s, 1) == seq![t1] + spec_kept_tokens(s, 2));
    assert(spec_kept_tokens(s, 0) == seq![t0] + spec_kept_tokens(s, 1));
    assert(spec_kept_tokens(s, 0) =~= seq![t0, t1, t2, t3, eof_tok(s)]);
    assert(spec_lex_diagnostics(s, 4) == Seq::<Diagnostic>::empty());
    assert(spec_lex_diagnostics(s, 3) == Seq::<Diagnostic>::empty() + spec_lex_diagnostics(s, 4));
    assert(spec_lex_diagnostics(s, 2) == Seq::<Diagnostic>::empty() + spec_lex_diagnostics(s, 3));
    assert(spec_lex_diagnostics(s, 1) == Seq::<Diagnostic>::empty() + spec_lex_diagnostics(s, 2));
    assert(spec_lex_diagnostics(s, 0) == Seq::<Diagnostic>::empty() + spec_lex_diagnostics(s, 1));
    assert(spec_lex_diagnostics(s, 0) =~= Seq::<Diagnostic>::empty());
}

/// The unary grouping law over raw source text. For a four-character text
/// `op1 a op2 b` the whole pipeline — lexing, then parsing — yields the
/// binary expression whose left operand is the unary one, `(op1 a) op2 b`
/// (every prefix operator of this grammar outranks every binary operator),
/// the real `EndOfFile` token, and not one diagnostic.
#[verifier::spinoff_prover]
#[verifier::rlimit(100)]
pub proof fn lemma_unary_operator_grouping_in_source(s: Seq<char>, k1: SyntaxKind, k2: SyntaxKind)
    requires
        s.len() == 4,
        spec_unary_operator_precedence(k1) > 0,
        spec_fixed_text(k1) == Some(seq![s[0]]),
        is_letter_char(s[1]),
        spec_binary_operator_precedence(k2) > 0,
        spec_fixed_text(k2) == Some(seq![s[2]]),
        is_letter_char(s[3]),
    ensures
        spec_parse_result(s).1 == Seq::<Diagnostic>::empty(),
        spec_parse_result(s).0.end_of_file_token == eof_tok(s),
        spec_parse_result(s).0.statement == (Stmt::Expression {
            expression: Expr::Binary {
                left: Box::new(
                    Expr::Unary {
                        operator_token: Tok {
                            kind: k1,
                            position: 0,
                            text: seq![s[0]],
                            value: None,
                        },
                        operand: Box::new(
                            Expr::Name {
                                identifier_token: Tok {
                                    kind: SyntaxKind::Identifier,
                                    position: 1,
                                    text: seq![s[1]],
                                    value: None,
                                },
                            },
                        ),
                    },
                ),
                operator_token: Tok { kind: k2, position: 2, text: seq![s[2]], value: None },
                right: Box::new(
                    Expr::Name {
                        identifier_token: Tok {
                            kind: SyntaxKind::Identifier,
                            position: 3,
                            text: seq![s[3]],
                            value: None,
                        },
                    },
                ),
            },
        }),
{
    lemma_lex_prefix_text(s, k1, k2);
    let toks = spec_kept_tokens(s, 0);
    let op1 = Tok { kind: k1, position: 0, text: seq![s[0]], value: None };
    let a = Tok { kind: SyntaxKind::Identifier, position: 1, text: seq![s[1]], value: None };
    let op2 = Tok { kind: k2, position: 2, text: seq![s[2]], value: None };
    let b = Tok { kind: SyntaxKind::Identifier, position: 3, text: seq![s[3]], value: None };
    lemma_unary_operator_grouping(toks, op1, a, op2, b, eof_tok(s));
    assert(tok_cur(toks, 0) == op1);
    let (expr, p1, d1) = sp_expression(toks, 0);
    assert(sp_expression_statement(toks, 0) == (Stmt::Expression { expression: expr }, p1, d1));
    assert(sp_statement(toks, 0) == sp_expression_statement(toks, 0));
    assert(tok_cur(toks, 4) == eof_tok(s));
    assert(sp_match(toks, 4, SyntaxKind::EndOfFile) == (eof_tok(s), 5int, Seq::<
        Diagnostic,
    >::empty()));
    assert(sp_compilation_unit(toks, 0).0 == (Unit {
        statement: Stmt::Expression { expression: expr },
        end_of_file_token: eof_tok(s),
    }));
    assert(sp_compilation_unit(toks, 0).2 =~= Seq::<Diagnostic>::empty());
    assert(spec_parse_result(s).1 =~= Seq::<Diagnostic>::empty());
}

} // verus!
