use lox::scanner::{normalize_line_endings, ScanError, ScanErrorKind, Scanned, Scanner};
use lox::token::{Literal, TokenType};
use lox::utils::{is_alpha, is_alpha_numeric, is_digit};

fn scan(src: &str) -> Scanned {
    Scanner::new(String::from(src)).scan_tokens()
}

fn kinds(out: &Scanned) -> Vec<TokenType> {
    out.tokens.iter().map(|t| t.token_type).collect()
}

#[test]
fn lexemes_rebuild_plain_source() {
    let src = "var x = (12.5 + y) >= 3;\n\tprint x != nil;";
    let out = scan(src);
    let joined: String = out.tokens.iter().map(|t| t.lexeme.clone()).collect();
    let expected: String = src.chars().filter(|c| !c.is_whitespace()).collect();
    assert_eq!(joined, expected);
    assert!(!out.had_error());
}

#[test]
fn empty_input_gives_only_eof() {
    let out = scan("");
    assert_eq!(kinds(&out), vec![TokenType::EOF]);
    assert_eq!(out.tokens[0].line, 1);
    assert_eq!(out.tokens[0].lexeme, "");
    assert!(!out.had_error());
}

#[test]
fn eof_once_and_last() {
    let out = scan("a b\nc @ \"x");
    let n = out.tokens.len();
    assert_eq!(out.tokens[n - 1].token_type, TokenType::EOF);
    assert_eq!(out.tokens.iter().filter(|t| t.token_type == TokenType::EOF).count(), 1);
}

#[test]
fn lines_follow_newlines() {
    let src = "a\n\nb \"x\ny\" c\nd";
    let out = scan(src);
    let lines: Vec<usize> = out.tokens.iter().map(|t| t.line).collect();
    assert_eq!(lines, vec![1, 3, 3, 4, 5, 5]);
    for w in lines.windows(2) {
        assert!(w[0] <= w[1]);
    }
}

#[test]
fn book_expression_tokens() {
    let out = scan("-123 * (45.67)");
    assert_eq!(
        kinds(&out),
        vec![
            TokenType::MINUS,
            TokenType::NUMBER,
            TokenType::STAR,
            TokenType::LEFT_PAREN,
            TokenType::NUMBER,
            TokenType::RIGHT_PAREN,
            TokenType::EOF
        ]
    );
    assert_eq!(out.tokens[4].literal.render(), "45.67");
    assert_eq!(out.tokens[1].literal.render(), "123");
}

#[test]
fn precision_clamped_for_zero_fraction() {
    let out = scan("45.000");
    assert_eq!(out.tokens[0].token_type, TokenType::NUMBER);
    assert_eq!(out.tokens[0].lexeme, "45.000");
    match &out.tokens[0].literal {
        Literal::Number(d, p) => {
            assert_eq!(*p, 1);
            assert_eq!(d.whole, "45");
            assert_eq!(d.fraction, "000");
        }
        _ => panic!("not a number literal"),
    }
    assert_eq!(out.tokens[0].literal.render(), "45.0");
}

#[test]
fn unterminated_string_sets_error() {
    let out = scan("\"abc");
    assert_eq!(kinds(&out), vec![TokenType::EOF]);
    assert!(out.had_error());
    assert_eq!(out.errors, vec![ScanError { line: 1, kind: ScanErrorKind::UnterminatedString }]);
}

#[test]
fn bang_equal_is_one_token() {
    let out = scan("!=");
    assert_eq!(kinds(&out), vec![TokenType::BANG_EQUAL, TokenType::EOF]);
    assert_eq!(out.tokens[0].lexeme, "!=");
    let out = scan("! = == <= >= < > =");
    assert_eq!(
        kinds(&out),
        vec![
            TokenType::BANG,
            TokenType::EQUAL,
            TokenType::EQUAL_EQUAL,
            TokenType::LESS_EQUAL,
            TokenType::GREATER_EQUAL,
            TokenType::LESS,
            TokenType::GREATER,
            TokenType::EQUAL,
            TokenType::EOF
        ]
    );
}

#[test]
fn line_comment_is_skipped() {
    let out = scan("// hello\n+");
    assert_eq!(kinds(&out), vec![TokenType::PLUS, TokenType::EOF]);
    assert_eq!(out.tokens[0].lexeme, "+");
    assert_eq!(out.tokens[0].line, 2);
}

#[test]
fn block_comment_advances_lines() {
    let out = scan("/* one\ntwo\nthree */ x");
    assert_eq!(kinds(&out), vec![TokenType::IDENTIFIER, TokenType::EOF]);
    assert_eq!(out.tokens[0].line, 3);
    assert!(!out.had_error());
}

#[test]
fn unterminated_block_comment_is_an_error() {
    let out = scan("a /* b\nc");
    assert_eq!(kinds(&out), vec![TokenType::IDENTIFIER, TokenType::EOF]);
    assert_eq!(out.errors, vec![ScanError { line: 2, kind: ScanErrorKind::UnterminatedComment }]);
    assert_eq!(out.tokens[1].line, 2);
}

#[test]
fn unexpected_character_is_reported_and_skipped() {
    let out = scan("a\n@ # b");
    assert_eq!(kinds(&out), vec![TokenType::IDENTIFIER, TokenType::IDENTIFIER, TokenType::EOF]);
    assert_eq!(
        out.errors,
        vec![
            ScanError { line: 2, kind: ScanErrorKind::UnexpectedCharacter('@') },
            ScanError { line: 2, kind: ScanErrorKind::UnexpectedCharacter('#') }
        ]
    );
}

#[test]
fn string_literal_payload_and_lines() {
    let out = scan("\"a\nb\" x");
    assert_eq!(out.tokens[0].token_type, TokenType::STRING);
    assert_eq!(out.tokens[0].lexeme, "\"a\nb\"");
    assert_eq!(out.tokens[0].line, 1);
    assert_eq!(out.tokens[0].literal.render(), "a\nb");
    assert_eq!(out.tokens[1].line, 2);
}

#[test]
fn trailing_dot_is_not_part_of_number() {
    let out = scan("123.");
    assert_eq!(kinds(&out), vec![TokenType::NUMBER, TokenType::DOT, TokenType::EOF]);
    assert_eq!(out.tokens[0].lexeme, "123");
    assert_eq!(out.tokens[0].render(), "NUMBER 123 123");
}

#[test]
fn keywords_and_identifiers() {
    let out = scan("and class else false fun for if nil or print return super this true var while orchid _x1");
    assert_eq!(
        kinds(&out),
        vec![
            TokenType::AND,
            TokenType::CLASS,
            TokenType::ELSE,
            TokenType::FALSE,
            TokenType::FUN,
            TokenType::FOR,
            TokenType::IF,
            TokenType::NIL,
            TokenType::OR,
            TokenType::PRINT,
            TokenType::RETURN,
            TokenType::SUPER,
            TokenType::THIS,
            TokenType::TRUE,
            TokenType::VAR,
            TokenType::WHILE,
            TokenType::IDENTIFIER,
            TokenType::IDENTIFIER,
            TokenType::EOF
        ]
    );
}

#[test]
fn token_listing_format() {
    let out = scan("(\"hi\" 7.25 / x)");
    let lines: Vec<String> = out.tokens.iter().map(|t| t.render()).collect();
    assert_eq!(
        lines,
        vec![
            "LEFT_PAREN ( null",
            "STRING \"hi\" hi",
            "NUMBER 7.25 7.25",
            "SLASH / null",
            "IDENTIFIER x null",
            "RIGHT_PAREN ) null",
            "EOF  null"
        ]
    );
}

#[test]
fn unicode_scalars_are_single_characters() {
    let out = scan("é");
    assert_eq!(out.errors, vec![ScanError { line: 1, kind: ScanErrorKind::UnexpectedCharacter('é') }]);
    let out = scan("\"é\"");
    assert_eq!(out.tokens[0].literal.render(), "é");
}

#[test]
fn character_classes() {
    assert!(is_alpha('a') && is_alpha('Z') && is_alpha('_'));
    assert!(!is_alpha('1') && !is_alpha('-'));
    assert!(is_digit('0') && is_digit('9') && !is_digit('a'));
    assert!(is_alpha_numeric('q') && is_alpha_numeric('5') && !is_alpha_numeric(' '));
}

#[test]
fn crlf_pairs_become_line_feeds() {
    assert_eq!(normalize_line_endings("a\r\nb\r\n\"c\r\nd\"\r"), "a\nb\n\"c\nd\"\r");
    assert_eq!(normalize_line_endings(""), "");
    let out = scan(&normalize_line_endings("\"x\r\ny\""));
    assert_eq!(out.tokens[0].literal.render(), "x\ny");
}

#[test]
fn error_messages() {
    let e = ScanError { line: 12, kind: ScanErrorKind::UnexpectedCharacter('$') };
    assert_eq!(e.message(), "[line 12] Error: Unexpected character: $");
    let e = ScanError { line: 3, kind: ScanErrorKind::UnterminatedString };
    assert_eq!(e.message(), "[line 3] Error: Unterminated string.");
    let e = ScanError { line: 0, kind: ScanErrorKind::UnterminatedComment };
    assert_eq!(e.message(), "[line 0] Error: Unterminated comment.");
    let e = ScanError { line: 1090, kind: ScanErrorKind::UnterminatedString };
    assert_eq!(e.message(), "[line 1090] Error: Unterminated string.");
}

#[test]
fn single_number_sources() {
    for (src, whole, fraction, precision) in [
        ("7", "7", "", 1usize),
        ("45.000", "45", "000", 1),
        ("0.5", "0", "5", 1),
        ("3.14159", "3", "14159", 5),
        ("100.10", "100", "10", 2),
    ] {
        let out = scan(src);
        assert!(!out.had_error());
        assert_eq!(kinds(&out), vec![TokenType::NUMBER, TokenType::EOF]);
        assert_eq!(out.tokens[0].lexeme, src);
        match &out.tokens[0].literal {
            Literal::Number(d, p) => {
                assert_eq!(d.whole, whole);
                assert_eq!(d.fraction, fraction);
                assert_eq!(*p, precision);
            }
            _ => panic!("not a number literal"),
        }
    }
}

#[test]
fn words_stop_where_identifier_characters_stop() {
    let out = scan("12ab+cd_9.x");
    assert_eq!(
        kinds(&out),
        vec![
            TokenType::NUMBER,
            TokenType::IDENTIFIER,
            TokenType::PLUS,
            TokenType::IDENTIFIER,
            TokenType::DOT,
            TokenType::IDENTIFIER,
            TokenType::EOF
        ]
    );
    assert_eq!(out.tokens[1].lexeme, "ab");
    assert_eq!(out.tokens[3].lexeme, "cd_9");
    assert!(!out.had_error());
}
