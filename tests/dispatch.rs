use lox::expressions::{Expr, Visitor};
use lox::statement::{Stmt, StmtVisitor};
use lox::token::{Literal, Token, TokenType};

struct Names;

impl Visitor<&'static str> for Names {
    fn visit_binary_expression(&self, _expr: &Expr) -> &'static str {
        "binary"
    }
    fn visit_literal_expression(&self, _expr: &Expr) -> &'static str {
        "literal"
    }
    fn visit_assign_expression(&self, _expr: &Expr) -> &'static str {
        "assign"
    }
    fn visit_call_expression(&self, _expr: &Expr) -> &'static str {
        "call"
    }
    fn visit_get_expression(&self, _expr: &Expr) -> &'static str {
        "get"
    }
    fn visit_grouping_expression(&self, _expr: &Expr) -> &'static str {
        "grouping"
    }
    fn visit_logical_expression(&self, _expr: &Expr) -> &'static str {
        "logical"
    }
    fn visit_set_expression(&self, _expr: &Expr) -> &'static str {
        "set"
    }
    fn visit_super_expression(&self, _expr: &Expr) -> &'static str {
        "super"
    }
    fn visit_this_expression(&self, _expr: &Expr) -> &'static str {
        "this"
    }
    fn visit_unary_expression(&self, _expr: &Expr) -> &'static str {
        "unary"
    }
    fn visit_variable_expression(&self, _expr: &Expr) -> &'static str {
        "variable"
    }
}

impl StmtVisitor<&'static str> for Names {
    fn visit_block_stmt(&self, _stmt: &Stmt) -> &'static str {
        "block"
    }
    fn visit_class_stmt(&self, _stmt: &Stmt) -> &'static str {
        "class"
    }
    fn visit_expression_stmt(&self, _stmt: &Stmt) -> &'static str {
        "expression"
    }
    fn visit_function_stmt(&self, _stmt: &Stmt) -> &'static str {
        "function"
    }
    fn visit_if_stmt(&self, _stmt: &Stmt) -> &'static str {
        "if"
    }
    fn visit_print_stmt(&self, _stmt: &Stmt) -> &'static str {
        "print"
    }
    fn visit_return_stmt(&self, _stmt: &Stmt) -> &'static str {
        "return"
    }
    fn visit_variable_stmt(&self, _stmt: &Stmt) -> &'static str {
        "variable"
    }
    fn visit_while_stmt(&self, _stmt: &Stmt) -> &'static str {
        "while"
    }
}

fn tok(kind: TokenType, text: &str) -> Token {
    Token::new(kind, text, Literal::Absent, 1)
}

fn nil() -> Expr {
    Expr::LiteralExpr { value: Literal::Absent }
}

#[test]
fn expression_dispatch_picks_own_variant() {
    let cases: Vec<(Expr, &str)> = vec![
        (Expr::Assign { name: tok(TokenType::IDENTIFIER, "a"), value: Box::new(nil()) }, "assign"),
        (nil(), "literal"),
        (
            Expr::Binary { left: Box::new(nil()), operator: tok(TokenType::PLUS, "+"), right: Box::new(nil()) },
            "binary",
        ),
        (
            Expr::Call { callee: Box::new(nil()), paren: tok(TokenType::RIGHT_PAREN, ")"), arguments: vec![] },
            "call",
        ),
        (Expr::Get { object: Box::new(nil()), name: tok(TokenType::IDENTIFIER, "f") }, "get"),
        (Expr::Grouping { expression: Box::new(nil()) }, "grouping"),
        (
            Expr::Logical { left: Box::new(nil()), right: Box::new(nil()), operator: tok(TokenType::OR, "or") },
            "logical",
        ),
        (
            Expr::SetExpr { object: Box::new(nil()), name: tok(TokenType::IDENTIFIER, "f"), value: Box::new(nil()) },
            "set",
        ),
        (Expr::Super { keyword: tok(TokenType::SUPER, "super"), method: tok(TokenType::IDENTIFIER, "m") }, "super"),
        (Expr::This { keyword: tok(TokenType::THIS, "this") }, "this"),
        (Expr::Unary { operator: tok(TokenType::BANG, "!"), right: Box::new(nil()) }, "unary"),
        (Expr::Variable { name: tok(TokenType::IDENTIFIER, "v") }, "variable"),
    ];
    for (e, name) in &cases {
        assert_eq!(e.accept(&Names), *name);
    }
}

#[test]
fn statement_dispatch_picks_own_variant() {
    let cases: Vec<(Stmt, &str)> = vec![
        (Stmt::Print { expression: nil() }, "print"),
        (Stmt::Block { statements: vec![] }, "block"),
        (Stmt::Expression { expression: nil() }, "expression"),
        (Stmt::While { condition: nil(), body: Box::new(Stmt::Block { statements: vec![] }) }, "while"),
        (Stmt::Return { keyword: tok(TokenType::RETURN, "return"), value: nil() }, "return"),
        (Stmt::Variable { name: tok(TokenType::IDENTIFIER, "x"), initializer: nil() }, "variable"),
        (
            Stmt::If {
                condition: nil(),
                then_branch: Box::new(Stmt::Block { statements: vec![] }),
                else_branch: Box::new(Stmt::Block { statements: vec![] }),
            },
            "if",
        ),
        (Stmt::Function { name: tok(TokenType::IDENTIFIER, "f"), params: vec![], body: vec![] }, "function"),
        (Stmt::Class { name: tok(TokenType::IDENTIFIER, "C"), super_class: nil(), methods: vec![] }, "class"),
    ];
    for (s, name) in &cases {
        assert_eq!(s.accept(&Names), *name);
    }
}
