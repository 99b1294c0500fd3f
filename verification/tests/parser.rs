use jinchan_core::tdx::parser::{
    is_drawtext, BinOp, Expected, Expr, ParseError, Parser, Statement, UnOp,
};
use jinchan_core::tdx::tokenizer::{Token, TokenWithPos, Tokenizer};
use jinchan_core::tdx::{parse_formula, FormulaError};

fn parse_source(source: &str) -> Vec<Statement> {
    let mut t = Tokenizer::new(source);
    let tokens = t.tokenize().unwrap();
    let mut p = Parser::new(tokens);
    p.parse().unwrap()
}

fn parse_error(source: &str) -> ParseError {
    let mut t = Tokenizer::new(source);
    let tokens = t.tokenize().unwrap();
    let mut p = Parser::new(tokens);
    p.parse().unwrap_err()
}

fn show(e: &Expr) -> String {
    match e {
        Expr::Number(n) => n.clone(),
        Expr::Str(s) => format!("'{}'", s),
        Expr::Variable(v) => v.clone(),
        Expr::BinaryOp { op, left, right } => format!("({} {:?} {})", show(left), op, show(right)),
        Expr::UnaryOp { op, operand } => format!("({:?} {})", op, show(operand)),
        Expr::FuncCall { name, args } => {
            let parts: Vec<String> = args.iter().map(show).collect();
            format!("{}[{}]", name, parts.join(", "))
        }
    }
}

fn expr_of(source: &str) -> String {
    let stmts = parse_source(&format!("X := {};", source));
    match &stmts[0] {
        Statement::Assign { expr, .. } => show(expr),
        other => panic!("unexpected statement {:?}", other),
    }
}

#[test]
fn test_assign_and_output() {
    let stmts = parse_source("MA5 := MA(CLOSE, 5);\nMA5OUT : MA5;");
    assert_eq!(stmts.len(), 2);
    assert!(matches!(&stmts[0], Statement::Assign { name, .. } if name == "MA5"));
    assert!(matches!(&stmts[1], Statement::Output { name, .. } if name == "MA5OUT"));
}

#[test]
fn parser_test_drawtext() {
    let stmts = parse_source("DRAWTEXT(CLOSE > REF(CLOSE, 1), LOW, '买入信号');");
    assert_eq!(stmts.len(), 1);
    assert!(matches!(&stmts[0], Statement::DrawText { text, .. } if text == "买入信号"));
}

#[test]
fn test_complex_expr() {
    let stmts = parse_source("X := (MA(C, 5) + MA(C, 10)) / 2;");
    assert_eq!(stmts.len(), 1);
    assert!(matches!(&stmts[0], Statement::Assign { .. }));
}

#[test]
fn test_comparison_and_logic() {
    let stmts = parse_source("BUY := C > REF(C, 1) AND V > REF(V, 1);");
    assert_eq!(stmts.len(), 1);
}

#[test]
fn complex_expr_shape() {
    assert_eq!(expr_of("(MA(C, 5) + MA(C, 10)) / 2"), "((MA[C, 5] Add MA[C, 10]) Div 2)");
    assert_eq!(
        expr_of("C > REF(C, 1) AND V > REF(V, 1)"),
        "((C Gt REF[C, 1]) And (V Gt REF[V, 1]))"
    );
}

#[test]
fn precedence_from_loosest_to_tightest() {
    assert_eq!(expr_of("A OR B AND C"), "(A Or (B And C))");
    assert_eq!(expr_of("A AND B > C"), "(A And (B Gt C))");
    assert_eq!(expr_of("A > B + C"), "(A Gt (B Add C))");
    assert_eq!(expr_of("A + B * C"), "(A Add (B Mul C))");
    assert_eq!(expr_of("A * -B"), "(A Mul (Neg B))");
    assert_eq!(expr_of("NOT A AND B"), "((Not A) And B)");
    assert_eq!(expr_of("-A * B"), "((Neg A) Mul B)");
    assert_eq!(expr_of("- - A"), "(Neg (Neg A))");
}

#[test]
fn binary_operators_associate_left() {
    assert_eq!(expr_of("A - B - C"), "((A Sub B) Sub C)");
    assert_eq!(expr_of("A / B * C"), "((A Div B) Mul C)");
    assert_eq!(expr_of("A > B > C"), "((A Gt B) Gt C)");
    assert_eq!(expr_of("A OR B OR C"), "((A Or B) Or C)");
    assert_eq!(expr_of("A <= B = C"), "((A Le B) Eq C)");
    assert_eq!(expr_of("A < B >= C"), "((A Lt B) Ge C)");
}

#[test]
fn primary_forms() {
    assert_eq!(expr_of("1.5"), "1.5");
    assert_eq!(expr_of("'text'"), "'text'");
    assert_eq!(expr_of("F()"), "F[]");
    assert_eq!(expr_of("F(1)"), "F[1]");
    assert_eq!(expr_of("F(1, G(2, 3), H)"), "F[1, G[2, 3], H]");
    assert_eq!(expr_of("((A))"), "A");
    assert_eq!(expr_of("F (1)"), "F[1]");
}

#[test]
fn semicolons_are_lenient() {
    assert_eq!(parse_source("").len(), 0);
    assert_eq!(parse_source(";;;").len(), 0);
    assert_eq!(parse_source("A := 1").len(), 1);
    assert_eq!(parse_source("A := 1 B : A").len(), 2);
    assert_eq!(parse_source(";A := 1;;; B : A;;").len(), 2);
}

#[test]
fn drawtext_keyword_any_case() {
    let stmts = parse_source("drawtext(C, L, 'x')");
    assert!(matches!(&stmts[0], Statement::DrawText { text, .. } if text == "x"));
    assert!(is_drawtext("DrawText"));
    assert!(!is_drawtext("DRAWTEXT2"));
}

#[test]
fn statement_errors() {
    let e = parse_error("1 + 2;");
    assert_eq!(e.expected, Expected::Statement);
    assert_eq!((e.line, e.col), (1, 1));
    assert_eq!(e.found, Token::Number("1".into()));
    let e = parse_error("A + 2;");
    assert_eq!(e.expected, Expected::Statement);
    assert_eq!(e.found, Token::Ident("A".into()));
    let e = parse_error("A := 1;\nMA(C, 5);");
    assert_eq!(e.expected, Expected::Statement);
    assert_eq!((e.line, e.col), (2, 1));
}

#[test]
fn expression_errors() {
    let e = parse_error("A := ;");
    assert_eq!(e.expected, Expected::Expression);
    assert_eq!(e.found, Token::Semicolon);
    assert_eq!((e.line, e.col), (1, 6));
    let e = parse_error("A := 1 +");
    assert_eq!(e.expected, Expected::Expression);
    assert_eq!(e.found, Token::Eof);
    let e = parse_error("A := (1 + 2;");
    assert_eq!(e.expected, Expected::GroupClose);
    assert_eq!(e.found, Token::Semicolon);
    let e = parse_error("A := MA(C, 5;");
    assert_eq!(e.expected, Expected::CallClose("MA".into()));
    assert_eq!(e.found, Token::Semicolon);
    let e = parse_error("A := MA(C,);");
    assert_eq!(e.expected, Expected::Expression);
    assert_eq!(e.found, Token::RParen);
}

#[test]
fn drawtext_errors() {
    assert_eq!(parse_error("DRAWTEXT C").expected, Expected::DrawTextOpen);
    assert_eq!(parse_error("DRAWTEXT(C L, 'x')").expected, Expected::ConditionComma);
    assert_eq!(parse_error("DRAWTEXT(C, L 'x')").expected, Expected::PriceComma);
    assert_eq!(parse_error("DRAWTEXT(C, L, X)").expected, Expected::DrawTextString);
    assert_eq!(parse_error("DRAWTEXT(C, L, 'x'").expected, Expected::DrawTextClose);
    assert_eq!(parse_error("DRAWTEXT(, L, 'x')").expected, Expected::Expression);
}

#[test]
fn parse_error_message() {
    let e = parse_error("A := MA(C, 5;");
    assert_eq!(e.message(), "第 1 行第 13 列: 函数 MA 调用期望 ')', 发现 Semicolon");
    let e = parse_error("\n  1;");
    assert_eq!(e.message(), "第 2 行第 3 列: 期望赋值语句或 DRAWTEXT, 发现 Number(1)");
}

#[test]
fn parser_stays_put_on_error_and_ends_at_eof() {
    let mut t = Tokenizer::new("A := 1; B := ;");
    let tokens = t.tokenize().unwrap();
    let mut p = Parser::new(tokens);
    assert!(p.parse().is_err());
    assert!(p.parse().is_err());
    let mut t = Tokenizer::new("A := 1;");
    let mut p = Parser::new(t.tokenize().unwrap());
    assert_eq!(p.parse().unwrap().len(), 1);
    assert_eq!(p.parse().unwrap().len(), 0);
}

#[test]
fn parser_accepts_tokens_without_eof() {
    let tokens = vec![
        TokenWithPos { token: Token::Ident("A".into()), line: 1, col: 1 },
        TokenWithPos { token: Token::ColonAssign, line: 1, col: 3 },
        TokenWithPos { token: Token::Number("1".into()), line: 1, col: 6 },
    ];
    let mut p = Parser::new(tokens);
    assert_eq!(p.parse().unwrap().len(), 1);
    let tokens = vec![
        TokenWithPos { token: Token::Ident("A".into()), line: 1, col: 1 },
        TokenWithPos { token: Token::ColonAssign, line: 1, col: 3 },
        TokenWithPos { token: Token::LParen, line: 1, col: 6 },
    ];
    let mut p = Parser::new(tokens);
    let e = p.parse().unwrap_err();
    assert_eq!(e.expected, Expected::Expression);
    assert_eq!((e.line, e.col), (1, 6));
    let mut p = Parser::new(Vec::new());
    assert_eq!(p.parse().unwrap().len(), 0);
}

#[test]
fn expr_clone_is_deep() {
    let stmts = parse_source("X := IF(A > 1, -B, MA(C, 5) * 2);");
    match &stmts[0] {
        Statement::Assign { expr, .. } => assert_eq!(show(&expr.clone()), show(expr)),
        _ => unreachable!(),
    }
}

#[test]
fn operators_are_plain_values() {
    assert_eq!(BinOp::Add, BinOp::Add);
    assert_ne!(BinOp::Ge, BinOp::Gt);
    assert_ne!(UnOp::Neg, UnOp::Not);
}

#[test]
fn parse_formula_reports_both_stages() {
    assert!(matches!(parse_formula("A := #;"), Err(FormulaError::Tokenize(_))));
    assert!(matches!(parse_formula("A := ;"), Err(FormulaError::Parse(_))));
    assert_eq!(parse_formula("A := 1; B : A;").unwrap().len(), 2);
}
