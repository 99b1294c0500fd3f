use jinchan_core::tdx::tokenizer::{
    classify, is_digit, is_ident_char, is_ident_start, is_space, Token, TokenWithPos,
    TokenizeError, TokenizeErrorKind, Tokenizer, Word,
};

fn tokens_of(source: &str) -> Vec<TokenWithPos> {
    let mut t = Tokenizer::new(source);
    t.tokenize().unwrap()
}

fn kinds_of(source: &str) -> Vec<Token> {
    tokens_of(source).into_iter().map(|t| t.token).collect()
}

fn error_of(source: &str) -> TokenizeError {
    let mut t = Tokenizer::new(source);
    t.tokenize().unwrap_err()
}

fn ident(name: &str) -> Token {
    Token::Ident(name.to_string())
}

fn number(text: &str) -> Token {
    Token::Number(text.to_string())
}

fn value_of(token: &Token) -> f64 {
    match token {
        Token::Number(text) => text.parse::<f64>().unwrap(),
        other => panic!("not a number: {:?}", other),
    }
}

#[test]
fn test_basic_tokenize() {
    let mut t = Tokenizer::new("MA5 := MA(CLOSE, 5);");
    let tokens = t.tokenize().unwrap();
    assert_eq!(tokens[0].token, Token::Ident("MA5".into()));
    assert_eq!(tokens[1].token, Token::ColonAssign);
    assert_eq!(tokens[2].token, Token::Ident("MA".into()));
    assert_eq!(tokens[3].token, Token::LParen);
    assert_eq!(tokens[4].token, Token::Ident("CLOSE".into()));
    assert_eq!(tokens[5].token, Token::Comma);
    assert_eq!(value_of(&tokens[6].token), 5.0);
    assert_eq!(tokens[6].token, number("5"));
    assert_eq!(tokens[7].token, Token::RParen);
    assert_eq!(tokens[8].token, Token::Semicolon);
}

#[test]
fn tokenizer_test_drawtext() {
    let mut t = Tokenizer::new("DRAWTEXT(C>REF(C,1), LOW, '买入');");
    let tokens = t.tokenize().unwrap();
    assert!(tokens.iter().any(|t| t.token == Token::Ident("DRAWTEXT".into())));
    assert!(tokens.iter().any(|t| t.token == Token::Str("买入".into())));
}

#[test]
fn test_skip_color() {
    let mut t = Tokenizer::new("MA5 : MA(CLOSE, 5), COLORRED, LINETHICK2;");
    let tokens = t.tokenize().unwrap();
    assert!(!tokens.iter().any(|t| matches!(&t.token, Token::Ident(s) if s.starts_with("COLOR"))));
    assert!(!tokens
        .iter()
        .any(|t| matches!(&t.token, Token::Ident(s) if s.starts_with("LINETHICK"))));
}

#[test]
fn test_comment() {
    let mut t = Tokenizer::new("{这是注释} MA5 := MA(CLOSE, 5);");
    let tokens = t.tokenize().unwrap();
    assert_eq!(tokens[0].token, Token::Ident("MA5".into()));
}

#[test]
fn tokenize_ends_with_eof() {
    assert_eq!(kinds_of(""), vec![Token::Eof]);
    assert_eq!(kinds_of("   \n\t "), vec![Token::Eof]);
    let tokens = tokens_of("A");
    assert_eq!(tokens.len(), 2);
    assert_eq!(tokens[1].token, Token::Eof);
    assert_eq!((tokens[1].line, tokens[1].col), (1, 2));
}

#[test]
fn tokenize_all_operators() {
    assert_eq!(
        kinds_of("+ - * / > >= < <= = , ; ( ) : :="),
        vec![
            Token::Plus,
            Token::Minus,
            Token::Star,
            Token::Slash,
            Token::Gt,
            Token::Ge,
            Token::Lt,
            Token::Le,
            Token::Eq,
            Token::Comma,
            Token::Semicolon,
            Token::LParen,
            Token::RParen,
            Token::Colon,
            Token::ColonAssign,
            Token::Eof,
        ]
    );
}

#[test]
fn tokenize_prefers_longest_operator() {
    assert_eq!(kinds_of("A:=1"), vec![ident("A"), Token::ColonAssign, number("1"), Token::Eof]);
    assert_eq!(kinds_of("A: =1"), vec![ident("A"), Token::Colon, Token::Eq, number("1"), Token::Eof]);
    assert_eq!(kinds_of(">=="), vec![Token::Ge, Token::Eq, Token::Eof]);
}

#[test]
fn tokenize_positions_are_one_based() {
    let tokens = tokens_of("A := 1;\n  B : A;");
    assert_eq!((tokens[0].line, tokens[0].col), (1, 1));
    assert_eq!((tokens[1].line, tokens[1].col), (1, 3));
    assert_eq!((tokens[2].line, tokens[2].col), (1, 6));
    assert_eq!((tokens[3].line, tokens[3].col), (1, 7));
    assert_eq!((tokens[4].line, tokens[4].col), (2, 3));
    assert_eq!((tokens[5].line, tokens[5].col), (2, 5));
}

#[test]
fn tokenize_line_feed_resets_column() {
    let tokens = tokens_of("\n\n\nX");
    assert_eq!((tokens[0].line, tokens[0].col), (4, 1));
    let tokens = tokens_of("'a\nb' X");
    assert_eq!(tokens[0].token, Token::Str("a\nb".into()));
    assert_eq!((tokens[1].line, tokens[1].col), (2, 4));
}

#[test]
fn tokenize_numbers_keep_their_text() {
    assert_eq!(kinds_of("12.50"), vec![number("12.50"), Token::Eof]);
    assert_eq!(kinds_of(".5"), vec![number(".5"), Token::Eof]);
    assert_eq!(kinds_of("5."), vec![number("5."), Token::Eof]);
    assert_eq!(kinds_of("1.2.3"), vec![number("1.2"), number(".3"), Token::Eof]);
    assert_eq!(value_of(&kinds_of("12.50")[0]), 12.5);
    assert_eq!(value_of(&kinds_of(".5")[0]), 0.5);
    assert_eq!(value_of(&kinds_of("5.")[0]), 5.0);
}

#[test]
fn tokenize_lone_dot_is_invalid_number() {
    let e = error_of("A := .;");
    assert_eq!(e.kind, TokenizeErrorKind::InvalidNumber);
    assert_eq!((e.line, e.col, e.ch), (1, 6, '.'));
    assert_eq!(e.message(), "第 1 行第 6 列: 无效数字 '.'");
}

#[test]
fn tokenize_unknown_character() {
    let e = error_of("A := 1;\nB := A # 2;");
    assert_eq!(e.kind, TokenizeErrorKind::UnknownCharacter);
    assert_eq!((e.line, e.col, e.ch), (2, 8, '#'));
    assert_eq!(e.message(), "第 2 行第 8 列: 未知字符 '#'");
    let e = error_of("}");
    assert_eq!(e.kind, TokenizeErrorKind::UnknownCharacter);
    assert_eq!(e.ch, '}');
}

#[test]
fn tokenize_unterminated_string() {
    let e = error_of("DRAWTEXT(C, L, 'open");
    assert_eq!(e.kind, TokenizeErrorKind::UnterminatedString);
    assert_eq!((e.line, e.col, e.ch), (1, 16, '\''));
    assert_eq!(e.message(), "第 1 行第 16 列: 字符串未闭合");
}

#[test]
fn tokenize_strings_have_no_escapes() {
    assert_eq!(kinds_of("'a\\'"), vec![Token::Str("a\\".into()), Token::Eof]);
    assert_eq!(kinds_of("''"), vec![Token::Str("".into()), Token::Eof]);
}

#[test]
fn tokenize_reserved_words_any_case() {
    assert_eq!(kinds_of("and AND And"), vec![Token::And, Token::And, Token::And, Token::Eof]);
    assert_eq!(kinds_of("or Or"), vec![Token::Or, Token::Or, Token::Eof]);
    assert_eq!(kinds_of("not NOT"), vec![Token::Not, Token::Not, Token::Eof]);
    assert_eq!(kinds_of("ANDY"), vec![ident("ANDY"), Token::Eof]);
}

#[test]
fn tokenize_drops_visual_attributes() {
    for word in ["COLORRED", "colorred", "LINETHICK2", "POINTDOT", "DOTLINE", "CIRCLEDOT", "NODRAW", "NoDrawX"] {
        assert_eq!(kinds_of(word), vec![Token::Eof], "{}", word);
    }
    assert_eq!(kinds_of("COLO"), vec![ident("COLO"), Token::Eof]);
}

#[test]
fn tokenize_identifiers() {
    assert_eq!(kinds_of("_x9 收盘价 a_b"), vec![ident("_x9"), ident("收盘价"), ident("a_b"), Token::Eof]);
    assert_eq!(kinds_of("9a"), vec![number("9"), ident("a"), Token::Eof]);
    assert_eq!(kinds_of("ma5"), vec![ident("ma5"), Token::Eof]);
}

#[test]
fn tokenize_skips_comments() {
    assert_eq!(kinds_of("A // rest of line\nB"), vec![ident("A"), ident("B"), Token::Eof]);
    assert_eq!(kinds_of("A {x} {y} B"), vec![ident("A"), ident("B"), Token::Eof]);
    assert_eq!(kinds_of("// one\n// two\nA"), vec![ident("A"), Token::Eof]);
    assert_eq!(kinds_of("A {never closed"), vec![ident("A"), Token::Eof]);
    assert_eq!(kinds_of("A / B"), vec![ident("A"), Token::Slash, ident("B"), Token::Eof]);
}

#[test]
fn brace_comment_ends_at_first_closing_brace() {
    let e = error_of("{a {b} c} X");
    assert_eq!(e.kind, TokenizeErrorKind::UnknownCharacter);
    assert_eq!((e.line, e.col, e.ch), (1, 9, '}'));
}

#[test]
fn tokenize_twice_continues_from_the_end() {
    let mut t = Tokenizer::new("A + B");
    assert_eq!(t.tokenize().unwrap().len(), 4);
    let again = t.tokenize().unwrap();
    assert_eq!(again.len(), 1);
    assert_eq!(again[0].token, Token::Eof);
}

#[test]
fn character_classes() {
    for c in ['\t', '\n', '\u{b}', '\u{c}', '\r', ' ', '\u{85}', '\u{a0}', '\u{1680}', '\u{2000}', '\u{200a}', '\u{2028}', '\u{2029}', '\u{202f}', '\u{205f}', '\u{3000}'] {
        assert!(is_space(c), "{:?}", c);
    }
    let mut code = 0u32;
    while code <= 0x3100 {
        if let Some(c) = char::from_u32(code) {
            assert_eq!(is_space(c), c.is_whitespace(), "{:?}", c);
            assert_eq!(is_digit(c), c.is_ascii_digit(), "{:?}", c);
            assert_eq!(is_ident_start(c), c.is_alphabetic() || c == '_' || c > '\u{7f}', "{:?}", c);
            assert_eq!(is_ident_char(c), c.is_alphanumeric() || c == '_' || c > '\u{7f}', "{:?}", c);
        }
        code += 1;
    }
}

#[test]
fn classify_words() {
    assert!(matches!(classify("and"), Word::And));
    assert!(matches!(classify("Or"), Word::Or));
    assert!(matches!(classify("NOT"), Word::Not));
    assert!(matches!(classify("colorblue"), Word::Attribute));
    assert!(matches!(classify("CLOSE"), Word::Name));
}

#[test]
fn token_duplicate_is_equal() {
    for t in kinds_of("A 1 'x' + ;") {
        assert_eq!(t.duplicate(), t);
    }
}

#[test]
fn token_describe() {
    let mut out = String::from(">");
    ident("MA").describe(&mut out);
    number("5").describe(&mut out);
    Token::Str("买".into()).describe(&mut out);
    Token::ColonAssign.describe(&mut out);
    Token::Eof.describe(&mut out);
    assert_eq!(out, ">Ident(\"MA\")Number(5)Str(\"买\")ColonAssignEof");
}
