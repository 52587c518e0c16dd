use minsk_syntax::ast::ExpressionSyntax;
use minsk_syntax::ast::StatementSyntax;
use minsk_syntax::diagnostics::DiagnosticMessage;
use minsk_syntax::syntax_kind::get_text;
use minsk_syntax::syntax_kind::SyntaxKind;
use minsk_syntax::syntax_tree::SyntaxTree;
use minsk_syntax::token::MinskValue;
use minsk_syntax::token::SyntaxToken;
use minsk_syntax::token::TextSpan;

fn token(kind: SyntaxKind, position: usize, text: &str) -> SyntaxToken {
    SyntaxToken::new(kind, position, String::from(text), None)
}

fn number_token(position: usize, text: &str, value: i64) -> SyntaxToken {
    SyntaxToken::new(
        SyntaxKind::Number,
        position,
        String::from(text),
        Some(MinskValue::Integer(value)),
    )
}

fn name(position: usize, text: &str) -> ExpressionSyntax {
    ExpressionSyntax::Name { identifier_token: token(SyntaxKind::Identifier, position, text) }
}

fn number_literal(position: usize, text: &str, value: i64) -> ExpressionSyntax {
    ExpressionSyntax::Literal {
        literal_token: number_token(position, text, value),
        value: Some(MinskValue::Integer(value)),
    }
}

fn binary(
    left: ExpressionSyntax,
    operator: SyntaxToken,
    right: ExpressionSyntax,
) -> ExpressionSyntax {
    ExpressionSyntax::Binary {
        left: Box::new(left),
        operator_token: operator,
        right: Box::new(right),
    }
}

fn all_kinds() -> Vec<SyntaxKind> {
    vec![
        SyntaxKind::BadToken,
        SyntaxKind::EndOfFile,
        SyntaxKind::Whitespace,
        SyntaxKind::Number,
        SyntaxKind::Identifier,
        SyntaxKind::Plus,
        SyntaxKind::Minus,
        SyntaxKind::Star,
        SyntaxKind::Slash,
        SyntaxKind::Equals,
        SyntaxKind::OpenParenthesis,
        SyntaxKind::CloseParenthesis,
        SyntaxKind::OpenBrace,
        SyntaxKind::CloseBrace,
        SyntaxKind::TrueKeyword,
        SyntaxKind::FalseKeyword,
        SyntaxKind::LetKeyword,
        SyntaxKind::VarKeyword,
        SyntaxKind::IfKeyword,
        SyntaxKind::ElseKeyword,
        SyntaxKind::WhileKeyword,
        SyntaxKind::ForKeyword,
        SyntaxKind::ToKeyword,
    ]
}

fn binary_operators() -> Vec<SyntaxKind> {
    all_kinds()
        .into_iter()
        .filter(|k| k.binary_operator_precedence() > 0)
        .collect()
}

fn unary_operators() -> Vec<SyntaxKind> {
    all_kinds()
        .into_iter()
        .filter(|k| k.unary_operator_precedence() > 0)
        .collect()
}

fn binary_expression_honors_precedences_helper(op1: SyntaxKind, op2: SyntaxKind) {
    let op1_precedence = op1.binary_operator_precedence();
    let op2_precedence = op2.binary_operator_precedence();
    let op1_text = get_text(op1).unwrap();
    let op2_text = get_text(op2).unwrap();
    let text = format!("a{}b{}c", op1_text, op2_text);

    let tree = SyntaxTree::parse(&text);
    assert_eq!(tree.diagnostics().len(), 0);
    let a = name(0, "a");
    let b = name(1 + op1_text.len(), "b");
    let c = name(2 + op1_text.len() + op2_text.len(), "c");
    let op1_token = token(op1, 1, op1_text);
    let op2_token = token(op2, 2 + op1_text.len(), op2_text);

    let expected = if op1_precedence >= op2_precedence {
        StatementSyntax::Expression { expression: binary(binary(a, op1_token, b), op2_token, c) }
    } else {
        StatementSyntax::Expression { expression: binary(a, op1_token, binary(b, op2_token, c)) }
    };
    assert_eq!(tree.root().statement(), &expected);
}

#[test]
fn binary_expression_honors_precedences() {
    for op1 in binary_operators() {
        for op2 in binary_operators() {
            binary_expression_honors_precedences_helper(op1, op2);
        }
    }
}

fn unary_expression_honors_precedences_helper(unary: SyntaxKind, binary_kind: SyntaxKind) {
    let unary_precedence = unary.unary_operator_precedence();
    let binary_precedence = binary_kind.binary_operator_precedence();
    let unary_text = get_text(unary).unwrap();
    let binary_text = get_text(binary_kind).unwrap();
    let text = format!("{}a{}b", unary_text, binary_text);

    let tree = SyntaxTree::parse(&text);
    assert_eq!(tree.diagnostics().len(), 0);
    let a = name(1, "a");
    let b = name(2 + binary_text.len(), "b");
    let unary_token = token(unary, 0, unary_text);
    let binary_token = token(binary_kind, 2, binary_text);

    let expected = if unary_precedence >= binary_precedence {
        StatementSyntax::Expression {
            expression: binary(
                ExpressionSyntax::Unary { operator_token: unary_token, operand: Box::new(a) },
                binary_token,
                b,
            ),
        }
    } else {
        StatementSyntax::Expression {
            expression: ExpressionSyntax::Unary {
                operator_token: unary_token,
                operand: Box::new(binary(a, binary_token, b)),
            },
        }
    };
    assert_eq!(tree.root().statement(), &expected);
}

#[test]
fn unary_expression_honors_precedences() {
    for unary in unary_operators() {
        for binary_kind in binary_operators() {
            unary_expression_honors_precedences_helper(unary, binary_kind);
        }
    }
}

#[test]
fn multiplication_binds_tighter_than_addition() {
    let tree = SyntaxTree::parse("1 + 2 * 3");
    assert_eq!(tree.diagnostics().len(), 0);
    let expected = StatementSyntax::Expression {
        expression: binary(
            number_literal(0, "1", 1),
            token(SyntaxKind::Plus, 2, "+"),
            binary(
                number_literal(4, "2", 2),
                token(SyntaxKind::Star, 6, "*"),
                number_literal(8, "3", 3),
            ),
        ),
    };
    assert_eq!(tree.root().statement(), &expected);
}

#[test]
fn chained_assignment_is_right_associative() {
    let tree = SyntaxTree::parse("a = b = 3");
    assert_eq!(tree.diagnostics().len(), 0);
    let expected = StatementSyntax::Expression {
        expression: ExpressionSyntax::Assignment {
            identifier_token: token(SyntaxKind::Identifier, 0, "a"),
            equals_token: token(SyntaxKind::Equals, 2, "="),
            expression: Box::new(ExpressionSyntax::Assignment {
                identifier_token: token(SyntaxKind::Identifier, 4, "b"),
                equals_token: token(SyntaxKind::Equals, 6, "="),
                expression: Box::new(number_literal(8, "3", 3)),
            }),
        },
    };
    assert_eq!(tree.root().statement(), &expected);
}

#[test]
fn unterminated_block_reports_missing_brace() {
    let tree = SyntaxTree::parse("{ let x = 1");
    let diagnostics = tree.diagnostics();
    assert_eq!(diagnostics.len(), 1);
    assert_eq!(diagnostics.get(0).span, TextSpan { start: 11, length: 0 });
    assert_eq!(
        diagnostics.get(0).message,
        DiagnosticMessage::UnexpectedToken {
            actual: SyntaxKind::EndOfFile,
            expected: SyntaxKind::CloseBrace,
        },
    );
    let expected = StatementSyntax::Block {
        open_brace_token: token(SyntaxKind::OpenBrace, 0, "{"),
        statements: vec![StatementSyntax::VariableDeclaration {
            keyword: token(SyntaxKind::LetKeyword, 2, "let"),
            identifier: token(SyntaxKind::Identifier, 6, "x"),
            equals_token: token(SyntaxKind::Equals, 8, "="),
            initializer: number_literal(10, "1", 1),
        }],
        close_brace_token: token(SyntaxKind::CloseBrace, 11, ""),
    };
    assert_eq!(tree.root().statement(), &expected);
}

#[test]
fn lone_close_parenthesis_recovers_with_placeholder_literal() {
    let tree = SyntaxTree::parse(")");
    let diagnostics = tree.diagnostics();
    // The failed primary parse reports one unexpected token; requiring the
    // trailing end-of-file reports the same unconsumed token once more.
    assert_eq!(diagnostics.len(), 2);
    assert_eq!(diagnostics.get(0).span, TextSpan { start: 0, length: 1 });
    assert_eq!(
        diagnostics.get(0).message,
        DiagnosticMessage::UnexpectedToken {
            actual: SyntaxKind::CloseParenthesis,
            expected: SyntaxKind::Number,
        },
    );
    assert_eq!(
        diagnostics.get(1).message,
        DiagnosticMessage::UnexpectedToken {
            actual: SyntaxKind::CloseParenthesis,
            expected: SyntaxKind::EndOfFile,
        },
    );
    let expected = StatementSyntax::Expression {
        expression: ExpressionSyntax::Literal {
            literal_token: token(SyntaxKind::Number, 0, ""),
            value: None,
        },
    };
    assert_eq!(tree.root().statement(), &expected);
}

#[test]
fn parses_parenthesized_expression() {
    let tree = SyntaxTree::parse("(a + b) * c");
    assert_eq!(tree.diagnostics().len(), 0);
    let expected = StatementSyntax::Expression {
        expression: binary(
            ExpressionSyntax::Parenthesized {
                open_parenthesis_token: token(SyntaxKind::OpenParenthesis, 0, "("),
                expression: Box::new(binary(
                    name(1, "a"),
                    token(SyntaxKind::Plus, 3, "+"),
                    name(5, "b"),
                )),
                close_parenthesis_token: token(SyntaxKind::CloseParenthesis, 6, ")"),
            },
            token(SyntaxKind::Star, 8, "*"),
            name(10, "c"),
        ),
    };
    assert_eq!(tree.root().statement(), &expected);
}

#[test]
fn parses_boolean_literals() {
    let tree = SyntaxTree::parse("true");
    assert_eq!(tree.diagnostics().len(), 0);
    let expected = StatementSyntax::Expression {
        expression: ExpressionSyntax::Literal {
            literal_token: token(SyntaxKind::TrueKeyword, 0, "true"),
            value: Some(MinskValue::Boolean(true)),
        },
    };
    assert_eq!(tree.root().statement(), &expected);

    let tree = SyntaxTree::parse("false");
    assert_eq!(tree.diagnostics().len(), 0);
    let expected = StatementSyntax::Expression {
        expression: ExpressionSyntax::Literal {
            literal_token: token(SyntaxKind::FalseKeyword, 0, "false"),
            value: Some(MinskValue::Boolean(false)),
        },
    };
    assert_eq!(tree.root().statement(), &expected);
}

#[test]
fn parses_variable_declarations() {
    let tree = SyntaxTree::parse("let x = 42");
    assert_eq!(tree.diagnostics().len(), 0);
    let expected = StatementSyntax::VariableDeclaration {
        keyword: token(SyntaxKind::LetKeyword, 0, "let"),
        identifier: token(SyntaxKind::Identifier, 4, "x"),
        equals_token: token(SyntaxKind::Equals, 6, "="),
        initializer: number_literal(8, "42", 42),
    };
    assert_eq!(tree.root().statement(), &expected);

    let tree = SyntaxTree::parse("var y = a");
    assert_eq!(tree.diagnostics().len(), 0);
    let expected = StatementSyntax::VariableDeclaration {
        keyword: token(SyntaxKind::VarKeyword, 0, "var"),
        identifier: token(SyntaxKind::Identifier, 4, "y"),
        equals_token: token(SyntaxKind::Equals, 6, "="),
        initializer: name(8, "a"),
    };
    assert_eq!(tree.root().statement(), &expected);
}

#[test]
fn parses_if_with_else_clause() {
    let tree = SyntaxTree::parse("if true 1 else 2");
    assert_eq!(tree.diagnostics().len(), 0);
    let expected = StatementSyntax::If {
        keyword: token(SyntaxKind::IfKeyword, 0, "if"),
        condition: ExpressionSyntax::Literal {
            literal_token: token(SyntaxKind::TrueKeyword, 3, "true"),
            value: Some(MinskValue::Boolean(true)),
        },
        body: Box::new(StatementSyntax::Expression { expression: number_literal(8, "1", 1) }),
        else_clause: Some(minsk_syntax::ast::ElseClauseSyntax {
            keyword: token(SyntaxKind::ElseKeyword, 10, "else"),
            statement: Box::new(StatementSyntax::Expression {
                expression: number_literal(15, "2", 2),
            }),
        }),
    };
    assert_eq!(tree.root().statement(), &expected);
}

#[test]
fn parses_while_statement() {
    let tree = SyntaxTree::parse("while false 0");
    assert_eq!(tree.diagnostics().len(), 0);
    let expected = StatementSyntax::While {
        keyword: token(SyntaxKind::WhileKeyword, 0, "while"),
        condition: ExpressionSyntax::Literal {
            literal_token: token(SyntaxKind::FalseKeyword, 6, "false"),
            value: Some(MinskValue::Boolean(false)),
        },
        body: Box::new(StatementSyntax::Expression { expression: number_literal(12, "0", 0) }),
    };
    assert_eq!(tree.root().statement(), &expected);
}

#[test]
fn parses_for_statement() {
    let tree = SyntaxTree::parse("for i = 1 to 3 i");
    assert_eq!(tree.diagnostics().len(), 0);
    let expected = StatementSyntax::For {
        keyword: token(SyntaxKind::ForKeyword, 0, "for"),
        identifier: token(SyntaxKind::Identifier, 4, "i"),
        equals_token: token(SyntaxKind::Equals, 6, "="),
        lower_bound: Box::new(number_literal(8, "1", 1)),
        to_token: token(SyntaxKind::ToKeyword, 10, "to"),
        upper_bound: Box::new(number_literal(13, "3", 3)),
        body: Box::new(StatementSyntax::Expression { expression: name(15, "i") }),
    };
    assert_eq!(tree.root().statement(), &expected);
}

#[test]
fn empty_input_yields_placeholder_and_diagnostic() {
    let tree = SyntaxTree::parse("");
    let diagnostics = tree.diagnostics();
    assert_eq!(diagnostics.len(), 1);
    assert_eq!(diagnostics.get(0).span, TextSpan { start: 0, length: 0 });
    assert_eq!(
        diagnostics.get(0).message,
        DiagnosticMessage::UnexpectedToken {
            actual: SyntaxKind::EndOfFile,
            expected: SyntaxKind::Number,
        },
    );
    let expected = StatementSyntax::Expression {
        expression: ExpressionSyntax::Literal {
            literal_token: token(SyntaxKind::Number, 0, ""),
            value: None,
        },
    };
    assert_eq!(tree.root().statement(), &expected);
}

#[test]
fn parser_api_produces_unit_and_diagnostics() {
    let mut parser = minsk_syntax::parser::Parser::new("1 + 2");
    let unit = parser.parse_compilation_unit();
    let diagnostics = parser.diagnostics();
    assert_eq!(diagnostics.len(), 0);
    assert_eq!(unit.end_of_file_token, token(SyntaxKind::EndOfFile, 5, ""));
    let expected = StatementSyntax::Expression {
        expression: binary(
            number_literal(0, "1", 1),
            token(SyntaxKind::Plus, 2, "+"),
            number_literal(4, "2", 2),
        ),
    };
    assert_eq!(unit.statement(), &expected);
}
