use minsk_syntax::ast::ExpressionSyntax;
use minsk_syntax::ast::StatementSyntax;
use minsk_syntax::diagnostics::DiagnosticMessage;
use minsk_syntax::lexer::lex_tokens;
use minsk_syntax::syntax_kind::get_text;
use minsk_syntax::syntax_kind::SyntaxKind;
use minsk_syntax::syntax_tree::SyntaxTree;
use minsk_syntax::token::MinskValue;
use minsk_syntax::token::SyntaxToken;
use minsk_syntax::token::TextSpan;

fn plain(kind: SyntaxKind, position: usize, text: &str) -> SyntaxToken {
    SyntaxToken::new(kind, position, String::from(text), None)
}

#[test]
fn lexes_number_with_decoded_value() {
    let tokens = lex_tokens("123");
    assert_eq!(
        tokens,
        vec![
            SyntaxToken::new(
                SyntaxKind::Number,
                0,
                String::from("123"),
                Some(MinskValue::Integer(123)),
            ),
            plain(SyntaxKind::EndOfFile, 3, ""),
        ],
    );
}

#[test]
fn lexes_whitespace_operators_and_identifiers() {
    let tokens = lex_tokens("a + 1");
    assert_eq!(
        tokens,
        vec![
            plain(SyntaxKind::Identifier, 0, "a"),
            plain(SyntaxKind::Whitespace, 1, " "),
            plain(SyntaxKind::Plus, 2, "+"),
            plain(SyntaxKind::Whitespace, 3, " "),
            SyntaxToken::new(
                SyntaxKind::Number,
                4,
                String::from("1"),
                Some(MinskValue::Integer(1)),
            ),
            plain(SyntaxKind::EndOfFile, 5, ""),
        ],
    );
}

#[test]
fn every_fixed_spelling_lexes_to_its_kind() {
    let kinds = vec![
        SyntaxKind::Plus,
        SyntaxKind::Minus,
        SyntaxKind::Star,
        SyntaxKind::Slash,
        SyntaxKind::Equals,
        SyntaxKind::OpenParenthesis,
        SyntaxKind::CloseParenthesis,
        SyntaxKind::OpenBrace,
        SyntaxKind::CloseBrace,
        SyntaxKind::TrueKeyword,
        SyntaxKind::FalseKeyword,
        SyntaxKind::LetKeyword,
        SyntaxKind::VarKeyword,
        SyntaxKind::IfKeyword,
        SyntaxKind::ElseKeyword,
        SyntaxKind::WhileKeyword,
        SyntaxKind::ForKeyword,
        SyntaxKind::ToKeyword,
    ];
    for kind in kinds {
        let text = get_text(kind).unwrap();
        let tokens = lex_tokens(text);
        assert_eq!(tokens.len(), 2);
        assert_eq!(tokens[0], plain(kind, 0, text));
        assert_eq!(tokens[1], plain(SyntaxKind::EndOfFile, text.len(), ""));
    }
}

#[test]
fn non_keyword_letters_lex_to_identifier() {
    let tokens = lex_tokens("truely");
    assert_eq!(
        tokens,
        vec![
            plain(SyntaxKind::Identifier, 0, "truely"),
            plain(SyntaxKind::EndOfFile, 6, ""),
        ],
    );
}

#[test]
fn relexing_identical_text_gives_equal_tokens() {
    let text = "{ let x = 10 + foo * (2 - 3) } $";
    let first = lex_tokens(text);
    let second = lex_tokens(text);
    assert_eq!(first.len(), second.len());
    for i in 0..first.len() {
        assert_eq!(first[i], second[i]);
    }
}

#[test]
fn bad_character_yields_bad_token_and_diagnostic() {
    let tokens = lex_tokens("$");
    assert_eq!(
        tokens,
        vec![
            plain(SyntaxKind::BadToken, 0, "$"),
            plain(SyntaxKind::EndOfFile, 1, ""),
        ],
    );
    let tree = SyntaxTree::parse("$");
    let diagnostics = tree.diagnostics();
    assert_eq!(diagnostics.len(), 2);
    assert_eq!(diagnostics.get(0).span, TextSpan { start: 0, length: 1 });
    assert_eq!(
        diagnostics.get(0).message,
        DiagnosticMessage::BadCharacter { character: '$' },
    );
    assert_eq!(
        diagnostics.get(1).message,
        DiagnosticMessage::UnexpectedToken {
            actual: SyntaxKind::EndOfFile,
            expected: SyntaxKind::Number,
        },
    );
}

#[test]
fn largest_number_still_fits() {
    let tokens = lex_tokens("9223372036854775807");
    assert_eq!(tokens[0].value, Some(MinskValue::Integer(i64::MAX)));
}

#[test]
fn numeric_overflow_reports_invalid_number() {
    let text = "9223372036854775808";
    let tree = SyntaxTree::parse(text);
    let diagnostics = tree.diagnostics();
    assert_eq!(diagnostics.len(), 1);
    assert_eq!(diagnostics.get(0).span, TextSpan { start: 0, length: 19 });
    assert_eq!(diagnostics.get(0).message, DiagnosticMessage::InvalidNumber);
    let expected = StatementSyntax::Expression {
        expression: ExpressionSyntax::Literal {
            literal_token: plain(SyntaxKind::Number, 0, text),
            value: None,
        },
    };
    assert_eq!(tree.root().statement(), &expected);
}

#[test]
fn precedence_tables_match_the_grammar() {
    assert_eq!(SyntaxKind::Star.binary_operator_precedence(), 2);
    assert_eq!(SyntaxKind::Slash.binary_operator_precedence(), 2);
    assert_eq!(SyntaxKind::Plus.binary_operator_precedence(), 1);
    assert_eq!(SyntaxKind::Minus.binary_operator_precedence(), 1);
    assert_eq!(SyntaxKind::Identifier.binary_operator_precedence(), 0);
    assert_eq!(SyntaxKind::Plus.unary_operator_precedence(), 3);
    assert_eq!(SyntaxKind::Minus.unary_operator_precedence(), 3);
    assert_eq!(SyntaxKind::Star.unary_operator_precedence(), 0);
    assert_eq!(get_text(SyntaxKind::Identifier), None);
    assert_eq!(get_text(SyntaxKind::Plus), Some("+"));
    assert_eq!(get_text(SyntaxKind::WhileKeyword), Some("while"));
}

#[test]
fn double_unary_minus_parses() {
    let tree = SyntaxTree::parse("--a");
    assert_eq!(tree.diagnostics().len(), 0);
    let expected = StatementSyntax::Expression {
        expression: ExpressionSyntax::Unary {
            operator_token: plain(SyntaxKind::Minus, 0, "-"),
            operand: Box::new(ExpressionSyntax::Unary {
                operator_token: plain(SyntaxKind::Minus, 1, "-"),
                operand: Box::new(ExpressionSyntax::Name {
                    identifier_token: plain(SyntaxKind::Identifier, 2, "a"),
                }),
            }),
        },
    };
    assert_eq!(tree.root().statement(), &expected);
}

#[test]
fn token_span_covers_its_text() {
    let tokens = lex_tokens("let abc");
    assert_eq!(tokens[0].span(), TextSpan { start: 0, length: 3 });
    assert_eq!(tokens[1].span(), TextSpan { start: 3, length: 1 });
    assert_eq!(tokens[2].span(), TextSpan { start: 4, length: 3 });
}
