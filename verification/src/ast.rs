//! Syntax nodes: expressions, statements, and the compilation unit. Every
//! non-leaf node owns its children exclusively; nodes are built once by the
//! parser and never mutated. The ghost types `Expr`, `Stmt`, `ElseM` and
//! `Unit` are the mathematical models the parser's contracts speak of.

use vstd::prelude::*;

use crate::token::MinskValue;
use crate::token::SyntaxToken;
use crate::token::Tok;

verus! {

broadcast use vstd::std_specs::vec::axiom_vec_index_decreases;

/// An expression node.
#[derive(PartialEq, Eq, Debug)]
pub enum ExpressionSyntax {
    /// A numeric or boolean literal with its decoded value.
    Literal { literal_token: SyntaxToken, value: Option<MinskValue> },
    /// A name (variable reference).
    Name { identifier_token: SyntaxToken },
    /// A prefix operator applied to an operand.
    Unary { operator_token: SyntaxToken, operand: Box<ExpressionSyntax> },
    /// An infix operator applied to two operands.
    Binary {
        left: Box<ExpressionSyntax>,
        operator_token: SyntaxToken,
        right: Box<ExpressionSyntax>,
    },
    /// `name = expression`; chains right-associatively.
    Assignment {
        identifier_token: SyntaxToken,
        equals_token: SyntaxToken,
        expression: Box<ExpressionSyntax>,
    },
    /// An expression between parentheses.
    Parenthesized {
        open_parenthesis_token: SyntaxToken,
        expression: Box<ExpressionSyntax>,
        close_parenthesis_token: SyntaxToken,
    },
}

/// Model of an expression node.
pub ghost enum Expr {
    Literal { literal_token: Tok, value: Option<MinskValue> },
    Name { identifier_token: Tok },
    Unary { operator_token: Tok, operand: Box<Expr> },
    Binary { left: Box<Expr>, operator_token: Tok, right: Box<Expr> },
    Assignment { identifier_token: Tok, equals_token: Tok, expression: Box<Expr> },
    Parenthesized {
        open_parenthesis_token: Tok,
        expression: Box<Expr>,
        close_parenthesis_token: Tok,
    },
}

impl DeepView for ExpressionSyntax {
    type V = Expr;

    open spec fn deep_view(&self) -> Expr
        decreases self,
    {
        match self {
            ExpressionSyntax::Literal { literal_token, value } => Expr::Literal {
                literal_token: literal_token@,
                value: *value,
            },
            ExpressionSyntax::Name { identifier_token } => Expr::Name {
                identifier_token: identifier_token@,
            },
            ExpressionSyntax::Unary { operator_token, operand } => Expr::Unary {
                operator_token: operator_token@,
                operand: Box::new((**operand).deep_view()),
            },
            ExpressionSyntax::Binary { left, operator_token, right } => Expr::Binary {
                left: Box::new((**left).deep_view()),
                operator_token: operator_token@,
                right: Box::new((**right).deep_view()),
            },
            ExpressionSyntax::Assignment { identifier_token, equals_token, expression } => Expr::Assignment {
                identifier_token: identifier_token@,
                equals_token: equals_token@,
                expression: Box::new((**expression).deep_view()),
            },
            ExpressionSyntax::Parenthesized {
                open_parenthesis_token,
                expression,
                close_parenthesis_token,
            } => Expr::Parenthesized {
                open_parenthesis_token: open_parenthesis_token@,
                expression: Box::new((**expression).deep_view()),
                close_parenthesis_token: close_parenthesis_token@,
            },
        }
    }
}

/// An `else` clause of an `if` statement.
#[derive(PartialEq, Eq, Debug)]
pub struct ElseClauseSyntax {
    pub keyword: SyntaxToken,
    pub statement: Box<StatementSyntax>,
}

/// Model of an `else` clause.
pub ghost struct ElseM {
    pub keyword: Tok,
    pub statement: Box<Stmt>,
}

/// A statement node.
#[derive(PartialEq, Eq, Debug)]
pub enum StatementSyntax {
    /// A bare expression used as a statement.
    Expression { expression: ExpressionSyntax },
    /// `{ statements }`.
    Block {
        open_brace_token: SyntaxToken,
        statements: Vec<StatementSyntax>,
        close_brace_token: SyntaxToken,
    },
    /// `let name = initializer` or `var name = initializer`.
    VariableDeclaration {
        keyword: SyntaxToken,
        identifier: SyntaxToken,
        equals_token: SyntaxToken,
        initializer: ExpressionSyntax,
    },
    /// `if condition body` with an optional `else` clause.
    If {
        keyword: SyntaxToken,
        condition: ExpressionSyntax,
        body: Box<StatementSyntax>,
        else_clause: Option<ElseClauseSyntax>,
    },
    /// `while condition body`.
    While { keyword: SyntaxToken, condition: ExpressionSyntax, body: Box<StatementSyntax> },
    /// `for name = lower to upper body`.
    For {
        keyword: SyntaxToken,
        identifier: SyntaxToken,
        equals_token: SyntaxToken,
        lower_bound: Box<ExpressionSyntax>,
        to_token: SyntaxToken,
        upper_bound: Box<ExpressionSyntax>,
        body: Box<StatementSyntax>,
    },
}

/// Model of a statement node.
pub ghost enum Stmt {
    Expression { expression: Expr },
    Block { open_brace_token: Tok, statements: Seq<Stmt>, close_brace_token: Tok },
    VariableDeclaration { keyword: Tok, identifier: Tok, equals_token: Tok, initializer: Expr },
    If { keyword: Tok, condition: Expr, body: Box<Stmt>, else_clause: Option<ElseM> },
    While { keyword: Tok, condition: Expr, body: Box<Stmt> },
    For {
        keyword: Tok,
        identifier: Tok,
        equals_token: Tok,
        lower_bound: Box<Expr>,
        to_token: Tok,
        upper_bound: Box<Expr>,
        body: Box<Stmt>,
    },
}

impl DeepView for ElseClauseSyntax {
    type V = ElseM;

    open spec fn deep_view(&self) -> ElseM {
        ElseM { keyword: self.keyword@, statement: Box::new((*self.statement).deep_view()) }
    }
}

/// Models of the first `n` elements of a statement list, in order.
pub open spec fn stmts_deep_view_upto(v: &Vec<StatementSyntax>, n: int) -> Seq<Stmt>
    decreases *v, n,
    when n <= v@.len()
{
    if n <= 0 {
        Seq::empty()
    } else {
        stmts_deep_view_upto(v, n - 1).push(stmt_deep_view(&(*v)[n - 1]))
    }
}

/// Two statement lists that agree on their first `n` elements have the same
/// model of those elements.
pub proof fn lemma_stmts_upto_prefix(v1: &Vec<StatementSyntax>, v2: &Vec<StatementSyntax>, n: int)
    requires
        0 <= n <= v1@.len(),
        n <= v2@.len(),
        forall|i: int| 0 <= i < n ==> v1@[i] == v2@[i],
    ensures
        stmts_deep_view_upto(v1, n) == stmts_deep_view_upto(v2, n),
    decreases n,
{
    if n > 0 {
        lemma_stmts_upto_prefix(v1, v2, n - 1);
    }
}

/// Model of a statement node, by structural recursion.
pub open spec fn stmt_deep_view(s: &StatementSyntax) -> Stmt
    decreases *s, 0int,
{
    match s {
            StatementSyntax::Expression { expression } => Stmt::Expression {
                expression: expression.deep_view(),
            },
            StatementSyntax::Block { open_brace_token, statements, close_brace_token } => Stmt::Block {
                open_brace_token: open_brace_token@,
                statements: stmts_deep_view_upto(statements, statements@.len() as int),
                close_brace_token: close_brace_token@,
            },
            StatementSyntax::VariableDeclaration {
                keyword,
                identifier,
                equals_token,
                initializer,
            } => Stmt::VariableDeclaration {
                keyword: keyword@,
                identifier: identifier@,
                equals_token: equals_token@,
                initializer: initializer.deep_view(),
            },
            StatementSyntax::If { keyword, condition, body, else_clause } => Stmt::If {
                keyword: keyword@,
                condition: condition.deep_view(),
                body: Box::new(stmt_deep_view(&**body)),
                else_clause: match else_clause {
                    Some(clause) => Some(
                        ElseM {
                            keyword: clause.keyword@,
                            statement: Box::new(stmt_deep_view(&*clause.statement)),
                        },
                    ),
                    None => None,
                },
            },
            StatementSyntax::While { keyword, condition, body } => Stmt::While {
                keyword: keyword@,
                condition: condition.deep_view(),
                body: Box::new(stmt_deep_view(&**body)),
            },
            StatementSyntax::For {
                keyword,
                identifier,
                equals_token,
                lower_bound,
                to_token,
                upper_bound,
                body,
            } => Stmt::For {
                keyword: keyword@,
                identifier: identifier@,
                equals_token: equals_token@,
                lower_bound: Box::new((**lower_bound).deep_view()),
                to_token: to_token@,
                upper_bound: Box::new((**upper_bound).deep_view()),
                body: Box::new(stmt_deep_view(&**body)),
            },
        }
}

impl DeepView for StatementSyntax {
    type V = Stmt;

    open spec fn deep_view(&self) -> Stmt {
        stmt_deep_view(self)
    }
}

/// The parse result for one source text: a single top-level statement and
/// the trailing `EndOfFile` token.
#[derive(PartialEq, Eq, Debug)]
pub struct CompilationUnit {
    pub statement: StatementSyntax,
    pub end_of_file_token: SyntaxToken,
}

/// Model of a compilation unit.
pub ghost struct Unit {
    pub statement: Stmt,
    pub end_of_file_token: Tok,
}

impl DeepView for CompilationUnit {
    type V = Unit;

    open spec fn deep_view(&self) -> Unit {
        Unit {
            statement: self.statement.deep_view(),
            end_of_file_token: self.end_of_file_token@,
        }
    }
}

impl CompilationUnit {
    pub fn new(statement: StatementSyntax, end_of_file_token: SyntaxToken) -> (unit:
        CompilationUnit)
        ensures
            unit.deep_view() == (Unit {
                statement: statement.deep_view(),
                end_of_file_token: end_of_file_token@,
            }),
    {
        CompilationUnit { statement, end_of_file_token }
    }

    /// The single top-level statement.
    pub fn statement(&self) -> (statement: &StatementSyntax)
        ensures
            *statement == self.statement,
    {
        &self.statement
    }
}

} // verus!
