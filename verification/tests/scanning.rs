use lox::entities::{LiteralValue, Token, TokenType};
use lox::errors::LoxResult;
use lox::scanner::Scanner;

fn scan(src: &str) -> (Result<Vec<Token>, LoxResult>, Vec<LoxResult>) {
    let mut scanner = Scanner::new(src.to_string());
    let result = match scanner.scan() {
        Ok(tokens) => Ok(tokens.iter().map(|t| t.dup()).collect()),
        Err(e) => Err(e),
    };
    let reports = scanner.reports().iter().map(|r| r.dup()).collect();
    (result, reports)
}

fn kinds(tokens: &[Token]) -> Vec<TokenType> {
    tokens.iter().map(|t| t.token_type).collect()
}

fn lexemes(tokens: &[Token]) -> Vec<String> {
    tokens.iter().map(|t| t.as_string()).collect()
}

#[test]
fn empty_source_gives_only_eof() {
    let (r, reports) = scan("");
    let tokens = r.unwrap();
    assert_eq!(kinds(&tokens), vec![TokenType::EOF]);
    assert_eq!(tokens[0].line, 1);
    assert_eq!(tokens[0].as_string(), "");
    assert!(reports.is_empty());
}

#[test]
fn punctuation_and_operators() {
    let (r, _) = scan("(){},.-+;*! != = == < <= > >= /");
    let tokens = r.unwrap();
    assert_eq!(
        kinds(&tokens),
        vec![
            TokenType::LEFT_PAREN,
            TokenType::RIGHT_PAREN,
            TokenType::LEFT_BRACE,
            TokenType::RIGHT_BRACE,
            TokenType::COMMA,
            TokenType::DOT,
            TokenType::MINUS,
            TokenType::PLUS,
            TokenType::SEMICOLON,
            TokenType::STAR,
            TokenType::BANG,
            TokenType::BANG_EQUAL,
            TokenType::EQUAL,
            TokenType::EQUAL_EQUAL,
            TokenType::LESS,
            TokenType::LESS_EQUAL,
            TokenType::GREATER,
            TokenType::GREATER_EQUAL,
            TokenType::SLASH,
            TokenType::EOF,
        ]
    );
    assert_eq!(lexemes(&tokens)[11], "!=");
    assert_eq!(lexemes(&tokens)[17], ">=");
}

#[test]
fn keywords_are_recognised() {
    let (r, _) = scan("and class else false for fun if nil or print return super this true var while break");
    let tokens = r.unwrap();
    assert_eq!(
        kinds(&tokens),
        vec![
            TokenType::AND,
            TokenType::CLASS,
            TokenType::ELSE,
            TokenType::FALSE,
            TokenType::FOR,
            TokenType::FUN,
            TokenType::IF,
            TokenType::NIL,
            TokenType::OR,
            TokenType::PRINT,
            TokenType::RETURN,
            TokenType::SUPER,
            TokenType::THIS,
            TokenType::TRUE,
            TokenType::VAR,
            TokenType::WHILE,
            TokenType::Break,
            TokenType::EOF,
        ]
    );
}

#[test]
fn keyword_table_lookup() {
    assert_eq!(Scanner::keywords("while"), Some(TokenType::WHILE));
    assert_eq!(Scanner::keywords("fun"), Some(TokenType::FUN));
    assert_eq!(Scanner::keywords("While"), None);
    assert_eq!(Scanner::keywords("whiles"), None);
}

#[test]
fn identifiers_take_letters_and_underscores() {
    let (r, _) = scan("_foo bar1 orchid");
    let tokens = r.unwrap();
    // a digit ends an identifier and starts a number
    assert_eq!(
        kinds(&tokens),
        vec![
            TokenType::IDENTIFIER,
            TokenType::IDENTIFIER,
            TokenType::NUMBER,
            TokenType::IDENTIFIER,
            TokenType::EOF
        ]
    );
    assert_eq!(lexemes(&tokens), vec!["_foo", "bar", "1", "orchid", ""]);
}

#[test]
fn numbers_keep_their_text() {
    let (r, _) = scan("123 1.5 7.");
    let tokens = r.unwrap();
    assert_eq!(
        kinds(&tokens),
        vec![TokenType::NUMBER, TokenType::NUMBER, TokenType::NUMBER, TokenType::DOT, TokenType::EOF]
    );
    assert!(matches!(&tokens[0].literal, Some(LiteralValue::Num(t)) if t == "123"));
    assert!(matches!(&tokens[1].literal, Some(LiteralValue::Num(t)) if t == "1.5"));
    assert!(matches!(&tokens[2].literal, Some(LiteralValue::Num(t)) if t == "7"));
}

#[test]
fn strings_may_span_lines() {
    let (r, reports) = scan("\"one\ntwo\" x");
    let tokens = r.unwrap();
    assert_eq!(kinds(&tokens), vec![TokenType::STRING, TokenType::IDENTIFIER, TokenType::EOF]);
    assert!(matches!(&tokens[0].literal, Some(LiteralValue::Str(s)) if s == "one\ntwo"));
    assert_eq!(tokens[0].as_string(), "\"one\ntwo\"");
    assert_eq!(tokens[0].line, 2);
    assert_eq!(tokens[1].line, 2);
    assert!(reports.is_empty());
}

#[test]
fn lines_are_counted() {
    let (r, _) = scan("a\nb\n\nc");
    let tokens = r.unwrap();
    let lines: Vec<usize> = tokens.iter().map(|t| t.line).collect();
    assert_eq!(lines, vec![1, 2, 4, 4]);
}

#[test]
fn line_comments_are_skipped() {
    let (r, _) = scan("a // comment ( ) \nb");
    let tokens = r.unwrap();
    assert_eq!(lexemes(&tokens), vec!["a", "b", ""]);
}

#[test]
fn block_comments_nest() {
    let (r, reports) = scan("a /* x /* y */ z\n */ b");
    let tokens = r.unwrap();
    assert_eq!(lexemes(&tokens), vec!["a", "b", ""]);
    assert_eq!(tokens[1].line, 2);
    assert!(reports.is_empty());
}

#[test]
fn unterminated_string_fails_the_scan() {
    let (r, reports) = scan("x \"abc");
    match r {
        Err(LoxResult::Error { line, message }) => {
            assert_eq!(line, 1);
            assert_eq!(message, "Unterminated String.");
        }
        other => panic!("unexpected {:?}", other),
    }
    assert_eq!(reports.len(), 1);
}

#[test]
fn unterminated_comment_fails_the_scan() {
    let (r, reports) = scan("x /* a /* b */");
    match r {
        Err(LoxResult::Error { message, .. }) => assert_eq!(message, "Unterminated comment"),
        other => panic!("unexpected {:?}", other),
    }
    assert_eq!(reports.len(), 1);
}

#[test]
fn unexpected_character_is_reported_and_scanning_goes_on() {
    let (r, reports) = scan("a @ b");
    let tokens = r.unwrap();
    assert_eq!(lexemes(&tokens), vec!["a", "b", ""]);
    assert_eq!(reports.len(), 1);
    match &reports[0] {
        LoxResult::Error { line, message } => {
            assert_eq!(*line, 1);
            assert_eq!(message, "Unexpected character.");
        }
        other => panic!("unexpected {:?}", other),
    }
}

#[test]
fn error_report_text() {
    let e = LoxResult::error(3, "Unexpected character.");
    assert_eq!(e.report("").unwrap(), "[line 3] Error: Unexpected character.\n");
    assert_eq!(e.report(" here").unwrap(), "[line 3] Error here: Unexpected character.\n");
}
