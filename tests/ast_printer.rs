use lox::ast::AstPrinter;
use lox::expressions::Expr;
use lox::expressions::Expr::{Binary, Grouping, LiteralExpr, Unary, Variable};
use lox::scanner::Scanner;
use lox::token::{Decimal, Literal, Token, TokenType};

#[test]
fn string_literal_binary() {
    let visitor = AstPrinter {};
    let l1 = LiteralExpr { value: Literal::String(String::from("Shermak")) };
    let l2 = LiteralExpr { value: Literal::String(String::from("Jaw")) };
    let bi = Binary {
        left: Box::new(l1),
        operator: Token::new(TokenType::PLUS, "+", Literal::String(String::from("+")), 1),
        right: Box::new(l2),
    };

    visitor.print(&bi);
    assert_eq!("(+ Shermak Jaw)", bi.accept(&visitor));
}

#[test]
fn book_example() {
    let visitor = AstPrinter {};
    let unary = Unary {
        right: Box::from(LiteralExpr { value: Literal::Number(Decimal::new("123", ""), 0) }),
        operator: Token::new(
            TokenType::MINUS,
            String::from("-").as_str(),
            Literal::String(String::from("-")),
            1,
        ),
    };
    let grouping = Grouping {
        expression: Box::from(LiteralExpr { value: Literal::Number(Decimal::new("45", "67"), 2) }),
    };
    let bi = Binary {
        operator: Token::new(TokenType::STAR, "*", Literal::String(String::from("*")), 1),
        left: Box::new(unary),
        right: Box::new(grouping),
    };

    visitor.print(&bi);
    assert_eq!("(* (- 123) (group 45.67))", bi.accept(&visitor));
}

#[test]
fn print_returns_rendering() {
    let visitor = AstPrinter {};
    let e = Grouping { expression: Box::new(LiteralExpr { value: Literal::Absent }) };
    assert_eq!(visitor.print(&e), "(group null)");
}

#[test]
fn every_variant_renders() {
    let visitor = AstPrinter {};
    let tok = |k: TokenType, t: &str| Token::new(k, t, Literal::Absent, 1);
    let var = |n: &str| Variable { name: tok(TokenType::IDENTIFIER, n) };
    assert_eq!(visitor.print(&var("x")), "x");
    let assign = Expr::Assign { name: tok(TokenType::IDENTIFIER, "a"), value: Box::new(var("b")) };
    assert_eq!(visitor.print(&assign), "(= a b)");
    let call = Expr::Call {
        callee: Box::new(var("f")),
        paren: tok(TokenType::RIGHT_PAREN, ")"),
        arguments: vec![Box::new(var("x")), Box::new(LiteralExpr { value: Literal::String(String::from("s")) })],
    };
    assert_eq!(visitor.print(&call), "(call f x s)");
    let no_args = Expr::Call { callee: Box::new(var("g")), paren: tok(TokenType::RIGHT_PAREN, ")"), arguments: vec![] };
    assert_eq!(visitor.print(&no_args), "(call g)");
    let get = Expr::Get { object: Box::new(var("o")), name: tok(TokenType::IDENTIFIER, "p") };
    assert_eq!(visitor.print(&get), "(. o p)");
    let logical = Expr::Logical {
        left: Box::new(var("a")),
        right: Box::new(var("b")),
        operator: tok(TokenType::OR, "or"),
    };
    assert_eq!(visitor.print(&logical), "(or a b)");
    let set = Expr::SetExpr {
        object: Box::new(var("o")),
        name: tok(TokenType::IDENTIFIER, "p"),
        value: Box::new(var("v")),
    };
    assert_eq!(visitor.print(&set), "(= (. o p) v)");
    let sup = Expr::Super { keyword: tok(TokenType::SUPER, "super"), method: tok(TokenType::IDENTIFIER, "m") };
    assert_eq!(visitor.print(&sup), "(super m)");
    let this = Expr::This { keyword: tok(TokenType::THIS, "this") };
    assert_eq!(visitor.print(&this), "this");
}

#[test]
fn parenthesize_joins_parts() {
    let visitor = AstPrinter {};
    let r = visitor.parenthesize("op", vec![String::from("a"), String::from("bc")]);
    assert_eq!(r, "(op a bc)");
    assert_eq!(visitor.parenthesize("x", vec![]), "(x)");
}

#[test]
fn scanned_tree_prints_prefix_form() {
    // -123 * (45.67), built from the scanned tokens as a parser would.
    let out = Scanner::new(String::from("-123 * (45.67)")).scan_tokens();
    let t = &out.tokens;
    assert_eq!(t.len(), 7);
    let unary = Unary {
        operator: t[0].clone(),
        right: Box::new(LiteralExpr { value: t[1].literal.clone() }),
    };
    let grouping = Grouping { expression: Box::new(LiteralExpr { value: t[4].literal.clone() }) };
    let bi = Binary { left: Box::new(unary), operator: t[2].clone(), right: Box::new(grouping) };
    assert_eq!(AstPrinter {}.print(&bi), "(* (- 123) (group 45.67))");
}

#[test]
fn number_literal_renders_at_its_precision() {
    assert_eq!(Literal::Number(Decimal::new("45", "000"), 1).render(), "45.0");
    assert_eq!(Literal::Number(Decimal::new("123", ""), 1).render(), "123");
    assert_eq!(Literal::Number(Decimal::new("1", "56"), 1).render(), "1.6");
    assert_eq!(Literal::Number(Decimal::new("1", "54"), 1).render(), "1.5");
    assert_eq!(Literal::Number(Decimal::new("1", "25"), 1).render(), "1.3");
    assert_eq!(Literal::Number(Decimal::new("9", "96"), 1).render(), "10.0");
    assert_eq!(Literal::Number(Decimal::new("45", "67"), 0).render(), "46");
    assert_eq!(Literal::Number(Decimal::new("99", "5"), 0).render(), "100");
    assert_eq!(Literal::Number(Decimal::new("0", "0049"), 2).render(), "0.00");
    assert_eq!(Literal::Number(Decimal::new("45", "67"), 2).render(), "45.67");
    assert_eq!(Literal::Number(Decimal::new("007", "5"), 1).render(), "7.5");
    assert_eq!(Literal::Number(Decimal::new("0", "25"), 3).render(), "0.250");
    assert_eq!(Literal::Absent.render(), "null");
    assert_eq!(Literal::String(String::from("hi there")).render(), "hi there");
}
