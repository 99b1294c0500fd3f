//! Builds statements and expressions from tokens.
//!
//! A formula is a list of statements:
//!
//! - `NAME := expr ;` binds an intermediate name;
//! - `NAME : expr ;` binds the name and exports it as an output;
//! - `DRAWTEXT ( cond , price , 'text' ) ;` declares a signal.
//!
//! The `;` behind a statement may be left out, and extra `;` are skipped.
//! Binary operators associate to the left; from loosest to tightest they
//! are `OR`, `AND`, the comparisons, `+ -`, `* /`, then the prefixes `-`
//! and `NOT`.

use crate::tdx::tokenizer::{
    SpecToken,
    SpecTokenWithPos,
    Token,
    TokenWithPos,
    token_seq,
    token_text,
};
use crate::text::{chars_of, position_prefix, push_position, push_text, same_chars, uppercase};
use vstd::prelude::*;

verus! {

#[derive(Debug, Clone, Copy, PartialEq, Eq, Structural)]
pub enum BinOp {
    Add,
    Sub,
    Mul,
    Div,
    Gt,
    Lt,
    Ge,
    Le,
    Eq,
    And,
    Or,
}

#[derive(Debug, Clone, Copy, PartialEq, Eq, Structural)]
pub enum UnOp {
    Neg,
    Not,
}

/// An expression. Every expression denotes a series with one value per bar.
#[derive(Debug)]
pub enum Expr {
    /// A decimal literal, kept as written.
    Number(String),
    Str(String),
    Variable(String),
    BinaryOp { op: BinOp, left: Box<Expr>, right: Box<Expr> },
    UnaryOp { op: UnOp, operand: Box<Expr> },
    FuncCall { name: String, args: Vec<Expr> },
}

/// The mathematical value of an [`Expr`].
pub enum SpecExpr {
    Number(Seq<char>),
    Str(Seq<char>),
    Variable(Seq<char>),
    BinaryOp { op: BinOp, left: Box<SpecExpr>, right: Box<SpecExpr> },
    UnaryOp { op: UnOp, operand: Box<SpecExpr> },
    FuncCall { name: Seq<char>, args: Seq<SpecExpr> },
}

impl View for Expr {
    type V = SpecExpr;

    open spec fn view(&self) -> SpecExpr
        decreases self,
    {
        match self {
            Expr::Number(n) => SpecExpr::Number(n@),
            Expr::Str(s) => SpecExpr::Str(s@),
            Expr::Variable(name) => SpecExpr::Variable(name@),
            Expr::BinaryOp { op, left, right } => SpecExpr::BinaryOp {
                op: *op,
                left: Box::new((**left).view()),
                right: Box::new((**right).view()),
            },
            Expr::UnaryOp { op, operand } => SpecExpr::UnaryOp {
                op: *op,
                operand: Box::new((**operand).view()),
            },
            Expr::FuncCall { name, args } => SpecExpr::FuncCall {
                name: name@,
                args: Seq::new(
                    args@.len(),
                    |i: int|
                        if 0 <= i < args@.len() {
                            args@[i].view()
                        } else {
                            SpecExpr::Str(Seq::empty())
                        },
                ),
            },
        }
    }
}

impl Clone for Expr {
    #[verifier::loop_isolation(false)]
    fn clone(&self) -> (r: Expr)
        ensures
            r@ == self@,
        decreases self,
    {
        match self {
            Expr::Number(n) => Expr::Number(n.clone()),
            Expr::Str(s) => Expr::Str(s.clone()),
            Expr::Variable(name) => Expr::Variable(name.clone()),
            Expr::BinaryOp { op, left, right } => Expr::BinaryOp {
                op: *op,
                left: Box::new((**left).clone()),
                right: Box::new((**right).clone()),
            },
            Expr::UnaryOp { op, operand } => Expr::UnaryOp {
                op: *op,
                operand: Box::new((**operand).clone()),
            },
            Expr::FuncCall { name, args } => {
                let mut copies: Vec<Expr> = Vec::new();
                let mut i: usize = 0;
                while i < args.len()
                    invariant
                        i <= args.len(),
                        copies.len() == i,
                        forall|k: int| 0 <= k < i ==> (#[trigger] copies@[k])@ == args@[k]@,
                    decreases args.len() - i,
                {
                    copies.push(args[i].clone());
                    i += 1;
                }
                let name = name.clone();
                proof {
                    lemma_call_view(name, copies);
                    lemma_call_view(name, *args);
                    assert(expr_seq(copies@) =~= expr_seq(args@));
                }
                Expr::FuncCall { name, args: copies }
            },
        }
    }
}

/// The values of a vector of expressions.
pub open spec fn expr_seq(v: Seq<Expr>) -> Seq<SpecExpr> {
    v.map_values(|e: Expr| e@)
}

/// A statement of a formula.
#[derive(Debug, Clone)]
pub enum Statement {
    Assign { name: String, expr: Expr },
    Output { name: String, expr: Expr },
    DrawText { condition: Expr, price_expr: Expr, text: String },
}

/// The mathematical value of a [`Statement`].
pub enum SpecStatement {
    Assign { name: Seq<char>, expr: SpecExpr },
    Output { name: Seq<char>, expr: SpecExpr },
    DrawText { condition: SpecExpr, price_expr: SpecExpr, text: Seq<char> },
}

impl View for Statement {
    type V = SpecStatement;

    open spec fn view(&self) -> SpecStatement {
        match self {
            Statement::Assign { name, expr } => SpecStatement::Assign { name: name@, expr: expr@ },
            Statement::Output { name, expr } => SpecStatement::Output { name: name@, expr: expr@ },
            Statement::DrawText { condition, price_expr, text } => SpecStatement::DrawText {
                condition: condition@,
                price_expr: price_expr@,
                text: text@,
            },
        }
    }
}

/// The values of a vector of statements.
pub open spec fn statement_seq(v: Seq<Statement>) -> Seq<SpecStatement> {
    v.map_values(|s: Statement| s@)
}

/// The value of a call is the call of the values of its arguments.
pub proof fn lemma_call_view(name: String, args: Vec<Expr>)
    ensures
        (Expr::FuncCall { name, args })@ == (SpecExpr::FuncCall {
            name: name@,
            args: expr_seq(args@),
        }),
{
    let e = Expr::FuncCall { name, args };
    assert(e@->FuncCall_args =~= expr_seq(args@));
}

/// What the parser was looking for when it gave up.
#[derive(Debug, Clone, PartialEq)]
pub enum Expected {
    /// An assignment, an output or a `DRAWTEXT` statement.
    Statement,
    /// The `(` behind `DRAWTEXT`.
    DrawTextOpen,
    /// The `,` behind the condition of a `DRAWTEXT`.
    ConditionComma,
    /// The `,` behind the price of a `DRAWTEXT`.
    PriceComma,
    /// The quoted text of a `DRAWTEXT`.
    DrawTextString,
    /// The `)` that closes a `DRAWTEXT`.
    DrawTextClose,
    /// The `)` that closes the call of the named function.
    CallClose(String),
    /// The `)` that closes a parenthesized expression.
    GroupClose,
    /// An expression.
    Expression,
}

/// The mathematical value of an [`Expected`].
pub enum SpecExpected {
    Statement,
    DrawTextOpen,
    ConditionComma,
    PriceComma,
    DrawTextString,
    DrawTextClose,
    CallClose(Seq<char>),
    GroupClose,
    Expression,
}

impl View for Expected {
    type V = SpecExpected;

    open spec fn view(&self) -> SpecExpected {
        match self {
            Expected::Statement => SpecExpected::Statement,
            Expected::DrawTextOpen => SpecExpected::DrawTextOpen,
            Expected::ConditionComma => SpecExpected::ConditionComma,
            Expected::PriceComma => SpecExpected::PriceComma,
            Expected::DrawTextString => SpecExpected::DrawTextString,
            Expected::DrawTextClose => SpecExpected::DrawTextClose,
            Expected::CallClose(name) => SpecExpected::CallClose(name@),
            Expected::GroupClose => SpecExpected::GroupClose,
            Expected::Expression => SpecExpected::Expression,
        }
    }
}

/// A parse failure: the offending token, its position, and what was
/// expected in its place.
#[derive(Debug, Clone, PartialEq)]
pub struct ParseError {
    pub line: usize,
    pub col: usize,
    pub expected: Expected,
    pub found: Token,
}

/// The mathematical value of a [`ParseError`].
pub struct SpecParseError {
    pub line: usize,
    pub col: usize,
    pub expected: SpecExpected,
    pub found: SpecToken,
}

impl View for ParseError {
    type V = SpecParseError;

    open spec fn view(&self) -> SpecParseError {
        SpecParseError {
            line: self.line,
            col: self.col,
            expected: self.expected@,
            found: self.found@,
        }
    }
}

/// Whether no token is left at `pos`: the position is outside the tokens or
/// holds `Eof`.
pub open spec fn at_end(toks: Seq<SpecTokenWithPos>, pos: int) -> bool {
    !(0 <= pos < toks.len()) || toks[pos].token is Eof
}

/// The token at `pos`, with `Eof` standing for the end.
pub open spec fn current(toks: Seq<SpecTokenWithPos>, pos: int) -> SpecToken {
    if at_end(toks, pos) {
        SpecToken::Eof
    } else {
        toks[pos].token
    }
}

/// The error raised at `pos`. Behind the last token it points at the last
/// token.
pub open spec fn error_at(
    toks: Seq<SpecTokenWithPos>,
    pos: int,
    expected: SpecExpected,
) -> SpecParseError {
    if toks.len() == 0 {
        SpecParseError { line: 0, col: 0, expected, found: SpecToken::Eof }
    } else {
        let i = if 0 <= pos < toks.len() {
            pos
        } else {
            toks.len() - 1
        };
        SpecParseError { line: toks[i].line, col: toks[i].col, expected, found: toks[i].token }
    }
}

/// The binary operator that `t` denotes at a precedence level, if any.
/// There are five levels; level 0 binds loosest.
pub open spec fn binary_op_at(level: int, t: SpecToken) -> Option<BinOp> {
    if level == 0 {
        match t {
            SpecToken::Or => Some(BinOp::Or),
            _ => None,
        }
    } else if level == 1 {
        match t {
            SpecToken::And => Some(BinOp::And),
            _ => None,
        }
    } else if level == 2 {
        match t {
            SpecToken::Gt => Some(BinOp::Gt),
            SpecToken::Lt => Some(BinOp::Lt),
            SpecToken::Ge => Some(BinOp::Ge),
            SpecToken::Le => Some(BinOp::Le),
            SpecToken::Eq => Some(BinOp::Eq),
            _ => None,
        }
    } else if level == 3 {
        match t {
            SpecToken::Plus => Some(BinOp::Add),
            SpecToken::Minus => Some(BinOp::Sub),
            _ => None,
        }
    } else if level == 4 {
        match t {
            SpecToken::Star => Some(BinOp::Mul),
            SpecToken::Slash => Some(BinOp::Div),
            _ => None,
        }
    } else {
        None
    }
}

/// An expression and the position behind it, or the error met.
pub type ExprOutcome = Result<(SpecExpr, int), SpecParseError>;

/// The arguments of a call and the position behind them, or the error met.
pub type ArgsOutcome = Result<(Seq<SpecExpr>, int), SpecParseError>;

/// A statement and the position behind it, or the error met.
pub type StatementOutcome = Result<(SpecStatement, int), SpecParseError>;

/// The statements of a formula and the position where parsing ended, or the
/// error met.
pub type ProgramOutcome = Result<(Seq<SpecStatement>, int), SpecParseError>;

// In the definitions below a test that `p` lies behind `pos` guards each
// step that goes on behind a sub-expression. A sub-expression always ends
// behind its start and inside the tokens (`lemma_expression_advances`), so
// the test never fails; it is there to make the definitions well-founded.

/// The expression that starts at `pos`.
pub open spec fn parse_expr(toks: Seq<SpecTokenWithPos>, pos: int) -> ExprOutcome
    decreases toks.len() - pos, 13int,
{
    parse_binary(toks, pos, 0)
}

/// The expression at `pos` made of operators of `level` and tighter.
pub open spec fn parse_binary(toks: Seq<SpecTokenWithPos>, pos: int, level: int) -> ExprOutcome
    decreases toks.len() - pos, 12 - 2 * level,
{
    if level == 5 {
        parse_unary(toks, pos)
    } else if 0 <= level < 5 {
        match parse_binary(toks, pos, level + 1) {
            Ok((left, p)) => if pos < p <= toks.len() {
                binary_rest(toks, p, level, left)
            } else {
                Err(error_at(toks, pos, SpecExpected::Expression))
            },
            Err(e) => Err(e),
        }
    } else {
        Err(error_at(toks, pos, SpecExpected::Expression))
    }
}

/// Extends `left` by the operators of `level` that follow at `pos`, each
/// with its right operand; the operators associate to the left.
pub open spec fn binary_rest(
    toks: Seq<SpecTokenWithPos>,
    pos: int,
    level: int,
    left: SpecExpr,
) -> ExprOutcome
    decreases toks.len() - pos, 11 - 2 * level,
{
    if !(0 <= level < 5) {
        Ok((left, pos))
    } else {
        match binary_op_at(level, current(toks, pos)) {
            Some(op) => match parse_binary(toks, pos + 1, level + 1) {
                Ok((right, p)) => if pos < p <= toks.len() {
                    binary_rest(
                        toks,
                        p,
                        level,
                        SpecExpr::BinaryOp { op, left: Box::new(left), right: Box::new(right) },
                    )
                } else {
                    Err(error_at(toks, pos, SpecExpected::Expression))
                },
                Err(e) => Err(e),
            },
            None => Ok((left, pos)),
        }
    }
}

/// The expression at `pos` with its prefix operators.
pub open spec fn parse_unary(toks: Seq<SpecTokenWithPos>, pos: int) -> ExprOutcome
    decreases toks.len() - pos, 1int,
{
    match current(toks, pos) {
        SpecToken::Minus => match parse_unary(toks, pos + 1) {
            Ok((operand, p)) => Ok(
                (SpecExpr::UnaryOp { op: UnOp::Neg, operand: Box::new(operand) }, p),
            ),
            Err(e) => Err(e),
        },
        SpecToken::Not => match parse_unary(toks, pos + 1) {
            Ok((operand, p)) => Ok(
                (SpecExpr::UnaryOp { op: UnOp::Not, operand: Box::new(operand) }, p),
            ),
            Err(e) => Err(e),
        },
        _ => parse_primary(toks, pos),
    }
}

/// The literal, name, call or parenthesized expression at `pos`. A name
/// followed by `(` is a call.
pub open spec fn parse_primary(toks: Seq<SpecTokenWithPos>, pos: int) -> ExprOutcome
    decreases toks.len() - pos, 0int,
{
    match current(toks, pos) {
        SpecToken::Number(n) => Ok((SpecExpr::Number(n), pos + 1)),
        SpecToken::Str(s) => Ok((SpecExpr::Str(s), pos + 1)),
        SpecToken::Ident(name) => if current(toks, pos + 1) is LParen {
            if current(toks, pos + 2) is RParen {
                Ok((SpecExpr::FuncCall { name, args: Seq::empty() }, pos + 3))
            } else {
                match parse_args(toks, pos + 2, Seq::empty()) {
                    Ok((args, p)) => if current(toks, p) is RParen {
                        Ok((SpecExpr::FuncCall { name, args }, p + 1))
                    } else {
                        Err(error_at(toks, p, SpecExpected::CallClose(name)))
                    },
                    Err(e) => Err(e),
                }
            }
        } else {
            Ok((SpecExpr::Variable(name), pos + 1))
        },
        SpecToken::LParen => match parse_expr(toks, pos + 1) {
            Ok((inner, p)) => if current(toks, p) is RParen {
                Ok((inner, p + 1))
            } else {
                Err(error_at(toks, p, SpecExpected::GroupClose))
            },
            Err(e) => Err(e),
        },
        _ => Err(error_at(toks, pos, SpecExpected::Expression)),
    }
}

/// The comma-separated expressions that start at `pos`, added to `acc`.
pub open spec fn parse_args(
    toks: Seq<SpecTokenWithPos>,
    pos: int,
    acc: Seq<SpecExpr>,
) -> ArgsOutcome
    decreases toks.len() - pos, 14int,
{
    match parse_expr(toks, pos) {
        Ok((arg, p)) => if current(toks, p) is Comma {
            if p > pos {
                parse_args(toks, p + 1, acc.push(arg))
            } else {
                Err(error_at(toks, pos, SpecExpected::Expression))
            }
        } else {
            Ok((acc.push(arg), p))
        },
        Err(e) => Err(e),
    }
}

/// Whether a name is the statement keyword `DRAWTEXT`, whatever its case.
pub open spec fn is_drawtext_name(name: Seq<char>) -> bool {
    uppercase(name) == "DRAWTEXT"@
}

/// The `DRAWTEXT` statement whose keyword stands at `pos`.
pub open spec fn parse_drawtext(toks: Seq<SpecTokenWithPos>, pos: int) -> StatementOutcome {
    if !(current(toks, pos + 1) is LParen) {
        Err(error_at(toks, pos + 1, SpecExpected::DrawTextOpen))
    } else {
        match parse_expr(toks, pos + 2) {
            Err(e) => Err(e),
            Ok((condition, p1)) => if !(current(toks, p1) is Comma) {
                Err(error_at(toks, p1, SpecExpected::ConditionComma))
            } else {
                match parse_expr(toks, p1 + 1) {
                    Err(e) => Err(e),
                    Ok((price_expr, p2)) => if !(current(toks, p2) is Comma) {
                        Err(error_at(toks, p2, SpecExpected::PriceComma))
                    } else {
                        match current(toks, p2 + 1) {
                            SpecToken::Str(text) => if current(toks, p2 + 2) is RParen {
                                Ok(
                                    (
                                        SpecStatement::DrawText { condition, price_expr, text },
                                        p2 + 3,
                                    ),
                                )
                            } else {
                                Err(error_at(toks, p2 + 2, SpecExpected::DrawTextClose))
                            },
                            _ => Err(error_at(toks, p2 + 1, SpecExpected::DrawTextString)),
                        }
                    },
                }
            },
        }
    }
}

/// The statement that starts at `pos`.
pub open spec fn parse_statement(toks: Seq<SpecTokenWithPos>, pos: int) -> StatementOutcome {
    match current(toks, pos) {
        SpecToken::Ident(name) => if is_drawtext_name(name) {
            parse_drawtext(toks, pos)
        } else {
            match current(toks, pos + 1) {
                SpecToken::ColonAssign => match parse_expr(toks, pos + 2) {
                    Ok((expr, p)) => Ok((SpecStatement::Assign { name, expr }, p)),
                    Err(e) => Err(e),
                },
                SpecToken::Colon => match parse_expr(toks, pos + 2) {
                    Ok((expr, p)) => Ok((SpecStatement::Output { name, expr }, p)),
                    Err(e) => Err(e),
                },
                _ => Err(error_at(toks, pos, SpecExpected::Statement)),
            }
        },
        _ => Err(error_at(toks, pos, SpecExpected::Statement)),
    }
}

/// The statements from `pos` to the end of the tokens, added to `acc`.
pub open spec fn parse_statements(
    toks: Seq<SpecTokenWithPos>,
    pos: int,
    acc: Seq<SpecStatement>,
) -> ProgramOutcome
    decreases toks.len() - pos,
{
    if at_end(toks, pos) {
        Ok((acc, pos))
    } else if current(toks, pos) is Semicolon {
        parse_statements(toks, pos + 1, acc)
    } else {
        match parse_statement(toks, pos) {
            Err(e) => Err(e),
            Ok((statement, p)) => {
                proof {
                    lemma_statement_advances(toks, pos);
                }
                let next = if current(toks, p) is Semicolon {
                    p + 1
                } else {
                    p
                };
                parse_statements(toks, next, acc.push(statement))
            },
        }
    }
}

/// The statements of a whole token sequence.
pub open spec fn parse_program(toks: Seq<SpecTokenWithPos>) -> Result<
    Seq<SpecStatement>,
    SpecParseError,
> {
    match parse_statements(toks, 0, Seq::empty()) {
        Ok((statements, _)) => Ok(statements),
        Err(e) => Err(e),
    }
}

/// An expression ends behind its start and inside the tokens.
pub proof fn lemma_expression_advances(toks: Seq<SpecTokenWithPos>, pos: int)
    ensures
        parse_expr(toks, pos) matches Ok((_, p)) ==> 0 <= pos < p <= toks.len(),
{
    lemma_binary_advances(toks, pos, 0);
}

/// An expression of any level ends behind its start and inside the tokens.
pub proof fn lemma_binary_advances(toks: Seq<SpecTokenWithPos>, pos: int, level: int)
    ensures
        parse_binary(toks, pos, level) matches Ok((_, p)) ==> 0 <= pos < p <= toks.len(),
    decreases toks.len() - pos, 12 - 2 * level,
{
    if level == 5 {
        lemma_unary_advances(toks, pos);
    } else if 0 <= level < 5 {
        lemma_binary_advances(toks, pos, level + 1);
        match parse_binary(toks, pos, level + 1) {
            Ok((left, p)) => {
                if p > pos {
                    lemma_rest_advances(toks, p, level, left);
                }
            },
            Err(_) => {},
        }
    }
}

/// A chain of operators and operands ends at or behind its start and
/// inside the tokens.
pub proof fn lemma_rest_advances(
    toks: Seq<SpecTokenWithPos>,
    pos: int,
    level: int,
    left: SpecExpr,
)
    requires
        0 <= pos <= toks.len(),
    ensures
        binary_rest(toks, pos, level, left) matches Ok((_, p)) ==> pos <= p <= toks.len(),
    decreases toks.len() - pos, 11 - 2 * level,
{
    if 0 <= level < 5 {
        match binary_op_at(level, current(toks, pos)) {
            Some(op) => {
                lemma_binary_advances(toks, pos + 1, level + 1);
                match parse_binary(toks, pos + 1, level + 1) {
                    Ok((right, p)) => {
                        if p > pos {
                            lemma_rest_advances(
                                toks,
                                p,
                                level,
                                SpecExpr::BinaryOp {
                                    op,
                                    left: Box::new(left),
                                    right: Box::new(right),
                                },
                            );
                        }
                    },
                    Err(_) => {},
                }
            },
            None => {},
        }
    }
}

/// A prefixed expression ends behind its start and inside the tokens.
pub proof fn lemma_unary_advances(toks: Seq<SpecTokenWithPos>, pos: int)
    ensures
        parse_unary(toks, pos) matches Ok((_, p)) ==> 0 <= pos < p <= toks.len(),
    decreases toks.len() - pos, 1int,
{
    match current(toks, pos) {
        SpecToken::Minus => {
            lemma_unary_advances(toks, pos + 1);
        },
        SpecToken::Not => {
            lemma_unary_advances(toks, pos + 1);
        },
        _ => {
            lemma_primary_advances(toks, pos);
        },
    }
}

/// A primary expression ends behind its start and inside the tokens.
pub proof fn lemma_primary_advances(toks: Seq<SpecTokenWithPos>, pos: int)
    ensures
        parse_primary(toks, pos) matches Ok((_, p)) ==> 0 <= pos < p <= toks.len(),
    decreases toks.len() - pos, 0int,
{
    match current(toks, pos) {
        SpecToken::Ident(name) => {
            if current(toks, pos + 1) is LParen && !(current(toks, pos + 2) is RParen) {
                lemma_args_advance(toks, pos + 2, Seq::empty());
            }
        },
        SpecToken::LParen => {
            lemma_binary_advances(toks, pos + 1, 0);
        },
        _ => {},
    }
}

/// A list of arguments ends behind its start and inside the tokens, and
/// holds at least one argument more than it began with.
pub proof fn lemma_args_advance(toks: Seq<SpecTokenWithPos>, pos: int, acc: Seq<SpecExpr>)
    ensures
        parse_args(toks, pos, acc) matches Ok((args, p)) ==> 0 <= pos < p <= toks.len()
            && args.len() > acc.len(),
    decreases toks.len() - pos, 14int,
{
    lemma_binary_advances(toks, pos, 0);
    match parse_expr(toks, pos) {
        Ok((arg, p)) => {
            if current(toks, p) is Comma && p > pos {
                lemma_args_advance(toks, p + 1, acc.push(arg));
            }
        },
        Err(_) => {},
    }
}

/// A statement ends behind its start and inside the tokens.
pub proof fn lemma_statement_advances(toks: Seq<SpecTokenWithPos>, pos: int)
    ensures
        parse_statement(toks, pos) matches Ok((_, p)) ==> 0 <= pos < p <= toks.len(),
{
    lemma_expression_advances(toks, pos + 2);
    match parse_expr(toks, pos + 2) {
        Ok((_, p1)) => {
            lemma_expression_advances(toks, p1 + 1);
        },
        Err(_) => {},
    }
}

/// The value of the result of parsing an expression.
pub open spec fn expr_outcome(r: Result<(Expr, usize), ParseError>) -> ExprOutcome {
    match r {
        Ok((e, p)) => Ok((e@, p as int)),
        Err(e) => Err(e@),
    }
}

/// The value of the result of parsing call arguments.
pub open spec fn args_outcome(r: Result<(Vec<Expr>, usize), ParseError>) -> ArgsOutcome {
    match r {
        Ok((args, p)) => Ok((expr_seq(args@), p as int)),
        Err(e) => Err(e@),
    }
}

/// The value of the result of parsing a statement.
pub open spec fn statement_outcome(r: Result<(Statement, usize), ParseError>) -> StatementOutcome {
    match r {
        Ok((s, p)) => Ok((s@, p as int)),
        Err(e) => Err(e@),
    }
}

/// Whether a name is the statement keyword `DRAWTEXT`.
pub fn is_drawtext(name: &str) -> (r: bool)
    ensures
        r == is_drawtext_name(name@),
{
    let upper = name.to_uppercase();
    same_chars(&chars_of(upper.as_str()), &chars_of("DRAWTEXT"))
}

/// The binary operator that a token denotes at a precedence level.
fn binary_op(level: u8, token: Option<&Token>) -> (r: Option<BinOp>)
    ensures
        r == binary_op_at(
            level as int,
            match token {
                Some(t) => t@,
                None => SpecToken::Eof,
            },
        ),
{
    match token {
        None => None,
        Some(t) => {
            if level == 0 {
                match t {
                    Token::Or => Some(BinOp::Or),
                    _ => None,
                }
            } else if level == 1 {
                match t {
                    Token::And => Some(BinOp::And),
                    _ => None,
                }
            } else if level == 2 {
                match t {
                    Token::Gt => Some(BinOp::Gt),
                    Token::Lt => Some(BinOp::Lt),
                    Token::Ge => Some(BinOp::Ge),
                    Token::Le => Some(BinOp::Le),
                    Token::Eq => Some(BinOp::Eq),
                    _ => None,
                }
            } else if level == 3 {
                match t {
                    Token::Plus => Some(BinOp::Add),
                    Token::Minus => Some(BinOp::Sub),
                    _ => None,
                }
            } else if level == 4 {
                match t {
                    Token::Star => Some(BinOp::Mul),
                    Token::Slash => Some(BinOp::Div),
                    _ => None,
                }
            } else {
                None
            }
        },
    }
}

/// A recursive-descent parser over a token vector.
pub struct Parser {
    tokens: Vec<TokenWithPos>,
    pos: usize,
}

impl Parser {
    /// The tokens being parsed.
    pub closed spec fn tokens(&self) -> Seq<SpecTokenWithPos> {
        token_seq(self.tokens@)
    }

    /// The index of the next token to read.
    pub closed spec fn position(&self) -> int {
        self.pos as int
    }

    /// A parser at the first of `tokens`.
    pub fn new(tokens: Vec<TokenWithPos>) -> (p: Self)
        ensures
            p.tokens() == token_seq(tokens@),
            p.position() == 0,
    {
        Parser { tokens, pos: 0 }
    }

    /// The token at `pos`, or `None` at the end.
    fn peek(&self, pos: usize) -> (r: Option<&Token>)
        ensures
            r is None == at_end(self.tokens(), pos as int),
            r is Some ==> pos < self.tokens.len(),
            r matches Some(t) ==> t@ == self.tokens()[pos as int].token,
            current(self.tokens(), pos as int) == match r {
                Some(t) => t@,
                None => SpecToken::Eof,
            },
    {
        if pos < self.tokens.len() {
            match &self.tokens[pos].token {
                Token::Eof => None,
                t => Some(t),
            }
        } else {
            None
        }
    }

    /// The error raised at `pos`.
    fn error_here(&self, pos: usize, expected: Expected) -> (e: ParseError)
        ensures
            e@ == error_at(self.tokens(), pos as int, expected@),
    {
        let n = self.tokens.len();
        if n == 0 {
            ParseError { line: 0, col: 0, expected, found: Token::Eof }
        } else {
            let i = if pos < n {
                pos
            } else {
                n - 1
            };
            let t = &self.tokens[i];
            ParseError { line: t.line, col: t.col, expected, found: t.token.duplicate() }
        }
    }

    fn parse_expr(&self, pos: usize) -> (r: Result<(Expr, usize), ParseError>)
        ensures
            expr_outcome(r) == parse_expr(self.tokens(), pos as int),
        decreases self.tokens.len() - pos, 13int,
    {
        self.parse_binary(pos, 0)
    }

    fn parse_binary(&self, pos: usize, level: u8) -> (r: Result<(Expr, usize), ParseError>)
        requires
            level <= 5,
        ensures
            expr_outcome(r) == parse_binary(self.tokens(), pos as int, level as int),
        decreases self.tokens.len() - pos, 12 - 2 * level,
    {
        if level == 5 {
            return self.parse_unary(pos);
        }
        let first = self.parse_binary(pos, level + 1);
        proof {
            lemma_binary_advances(self.tokens(), pos as int, level + 1);
        }
        let (mut left, mut p) = match first {
            Ok(found) => found,
            Err(e) => {
                return Err(e);
            },
        };
        loop
            invariant
                level < 5,
                pos < p <= self.tokens.len(),
                binary_rest(self.tokens(), p as int, level as int, left@) == parse_binary(
                    self.tokens(),
                    pos as int,
                    level as int,
                ),
            decreases self.tokens.len() - p,
        {
            match binary_op(level, self.peek(p)) {
                None => {
                    return Ok((left, p));
                },
                Some(op) => {
                    let second = self.parse_binary(p + 1, level + 1);
                    proof {
                        lemma_binary_advances(self.tokens(), p + 1, level + 1);
                    }
                    match second {
                        Err(e) => {
                            return Err(e);
                        },
                        Ok((right, next)) => {
                            left = Expr::BinaryOp {
                                op,
                                left: Box::new(left),
                                right: Box::new(right),
                            };
                            p = next;
                        },
                    }
                },
            }
        }
    }

    fn parse_unary(&self, pos: usize) -> (r: Result<(Expr, usize), ParseError>)
        ensures
            expr_outcome(r) == parse_unary(self.tokens(), pos as int),
        decreases self.tokens.len() - pos, 1int,
    {
        let op = match self.peek(pos) {
            Some(Token::Minus) => Some(UnOp::Neg),
            Some(Token::Not) => Some(UnOp::Not),
            _ => None,
        };
        match op {
            Some(op) => match self.parse_unary(pos + 1) {
                Ok((operand, p)) => Ok((Expr::UnaryOp { op, operand: Box::new(operand) }, p)),
                Err(e) => Err(e),
            },
            None => self.parse_primary(pos),
        }
    }

    fn parse_primary(&self, pos: usize) -> (r: Result<(Expr, usize), ParseError>)
        ensures
            expr_outcome(r) == parse_primary(self.tokens(), pos as int),
        decreases self.tokens.len() - pos, 0int,
    {
        match self.peek(pos) {
            Some(Token::Number(n)) => Ok((Expr::Number(n.clone()), pos + 1)),
            Some(Token::Str(s)) => Ok((Expr::Str(s.clone()), pos + 1)),
            Some(Token::Ident(name)) => {
                let name = name.clone();
                let is_call = match self.peek(pos + 1) {
                    Some(Token::LParen) => true,
                    _ => false,
                };
                if !is_call {
                    return Ok((Expr::Variable(name), pos + 1));
                }
                let no_args = match self.peek(pos + 2) {
                    Some(Token::RParen) => true,
                    _ => false,
                };
                if no_args {
                    let args: Vec<Expr> = Vec::new();
                    proof {
                        lemma_call_view(name, args);
                        assert(expr_seq(args@) =~= Seq::<SpecExpr>::empty());
                    }
                    return Ok((Expr::FuncCall { name, args }, pos + 3));
                }
                match self.parse_args(pos + 2) {
                    Err(e) => Err(e),
                    Ok((args, p)) => {
                        let closed = match self.peek(p) {
                            Some(Token::RParen) => true,
                            _ => false,
                        };
                        if closed {
                            proof {
                                lemma_call_view(name, args);
                            }
                            Ok((Expr::FuncCall { name, args }, p + 1))
                        } else {
                            Err(self.error_here(p, Expected::CallClose(name)))
                        }
                    },
                }
            },
            Some(Token::LParen) => match self.parse_expr(pos + 1) {
                Err(e) => Err(e),
                Ok((inner, p)) => {
                    let closed = match self.peek(p) {
                        Some(Token::RParen) => true,
                        _ => false,
                    };
                    if closed {
                        Ok((inner, p + 1))
                    } else {
                        Err(self.error_here(p, Expected::GroupClose))
                    }
                },
            },
            _ => Err(self.error_here(pos, Expected::Expression)),
        }
    }

    fn parse_args(&self, pos: usize) -> (r: Result<(Vec<Expr>, usize), ParseError>)
        ensures
            args_outcome(r) == parse_args(self.tokens(), pos as int, Seq::empty()),
        decreases self.tokens.len() - pos, 14int,
    {
        let mut args: Vec<Expr> = Vec::new();
        let mut p: usize = pos;
        assert(expr_seq(args@) =~= Seq::<SpecExpr>::empty());
        loop
            invariant
                pos <= p,
                p == pos || p <= self.tokens.len(),
                parse_args(self.tokens(), p as int, expr_seq(args@)) == parse_args(
                    self.tokens(),
                    pos as int,
                    Seq::empty(),
                ),
            decreases self.tokens.len() - p,
        {
            let item = self.parse_expr(p);
            proof {
                lemma_expression_advances(self.tokens(), p as int);
            }
            match item {
                Err(e) => {
                    return Err(e);
                },
                Ok((arg, next)) => {
                    let ghost before = expr_seq(args@);
                    let ghost value = arg@;
                    args.push(arg);
                    assert(expr_seq(args@) =~= before.push(value));
                    let more = match self.peek(next) {
                        Some(Token::Comma) => true,
                        _ => false,
                    };
                    if more {
                        p = next + 1;
                    } else {
                        return Ok((args, next));
                    }
                },
            }
        }
    }

    fn parse_drawtext(&self, pos: usize) -> (r: Result<(Statement, usize), ParseError>)
        requires
            pos < self.tokens.len(),
        ensures
            statement_outcome(r) == parse_drawtext(self.tokens(), pos as int),
    {
        let opened = match self.peek(pos + 1) {
            Some(Token::LParen) => true,
            _ => false,
        };
        if !opened {
            return Err(self.error_here(pos + 1, Expected::DrawTextOpen));
        }
        let (condition, p1) = match self.parse_expr(pos + 2) {
            Ok(found) => found,
            Err(e) => {
                return Err(e);
            },
        };
        let first_comma = match self.peek(p1) {
            Some(Token::Comma) => true,
            _ => false,
        };
        if !first_comma {
            return Err(self.error_here(p1, Expected::ConditionComma));
        }
        let (price_expr, p2) = match self.parse_expr(p1 + 1) {
            Ok(found) => found,
            Err(e) => {
                return Err(e);
            },
        };
        let second_comma = match self.peek(p2) {
            Some(Token::Comma) => true,
            _ => false,
        };
        if !second_comma {
            return Err(self.error_here(p2, Expected::PriceComma));
        }
        let text = match self.peek(p2 + 1) {
            Some(Token::Str(s)) => s.clone(),
            _ => {
                return Err(self.error_here(p2 + 1, Expected::DrawTextString));
            },
        };
        let closed = match self.peek(p2 + 2) {
            Some(Token::RParen) => true,
            _ => false,
        };
        if !closed {
            return Err(self.error_here(p2 + 2, Expected::DrawTextClose));
        }
        Ok((Statement::DrawText { condition, price_expr, text }, p2 + 3))
    }

    fn parse_statement(&self, pos: usize) -> (r: Result<(Statement, usize), ParseError>)
        ensures
            statement_outcome(r) == parse_statement(self.tokens(), pos as int),
    {
        let name = match self.peek(pos) {
            Some(Token::Ident(name)) => name.clone(),
            _ => {
                return Err(self.error_here(pos, Expected::Statement));
            },
        };
        if is_drawtext(name.as_str()) {
            return self.parse_drawtext(pos);
        }
        match self.peek(pos + 1) {
            Some(Token::ColonAssign) => match self.parse_expr(pos + 2) {
                Ok((expr, p)) => Ok((Statement::Assign { name, expr }, p)),
                Err(e) => Err(e),
            },
            Some(Token::Colon) => match self.parse_expr(pos + 2) {
                Ok((expr, p)) => Ok((Statement::Output { name, expr }, p)),
                Err(e) => Err(e),
            },
            _ => Err(self.error_here(pos, Expected::Statement)),
        }
    }

    /// Parses the statements from the current token to the end. On success
    /// the parser stands at the end; on failure it stays where it was.
    pub fn parse(&mut self) -> (r: Result<Vec<Statement>, ParseError>)
        ensures
            final(self).tokens() == old(self).tokens(),
            match r {
                Ok(statements) => parse_statements(
                    old(self).tokens(),
                    old(self).position(),
                    Seq::empty(),
                ) == Ok::<(Seq<SpecStatement>, int), SpecParseError>(
                    (statement_seq(statements@), final(self).position()),
                ),
                Err(e) => {
                    &&& parse_statements(old(self).tokens(), old(self).position(), Seq::empty())
                        == Err::<(Seq<SpecStatement>, int), SpecParseError>(e@)
                    &&& final(self).position() == old(self).position()
                },
            },
    {
        let mut statements: Vec<Statement> = Vec::new();
        let mut p: usize = self.pos;
        assert(statement_seq(statements@) =~= Seq::<SpecStatement>::empty());
        loop
            invariant
                *self == *old(self),
                parse_statements(self.tokens(), p as int, statement_seq(statements@))
                    == parse_statements(self.tokens(), self.pos as int, Seq::empty()),
            decreases self.tokens.len() - p,
        {
            let skip = match self.peek(p) {
                None => {
                    self.pos = p;
                    return Ok(statements);
                },
                Some(Token::Semicolon) => true,
                Some(_) => false,
            };
            if skip {
                p = p + 1;
            } else {
                let item = self.parse_statement(p);
                proof {
                    lemma_statement_advances(self.tokens(), p as int);
                }
                match item {
                    Err(e) => {
                        return Err(e);
                    },
                    Ok((statement, next)) => {
                        let ghost before = statement_seq(statements@);
                        let ghost value = statement@;
                        statements.push(statement);
                        assert(statement_seq(statements@) =~= before.push(value));
                        let ended = match self.peek(next) {
                            Some(Token::Semicolon) => true,
                            _ => false,
                        };
                        p = if ended {
                            next + 1
                        } else {
                            next
                        };
                    },
                }
            }
        }
    }
}

/// The words for what was expected.
pub open spec fn expected_text(expected: SpecExpected) -> Seq<char> {
    match expected {
        SpecExpected::Statement => "期望赋值语句或 DRAWTEXT"@,
        SpecExpected::DrawTextOpen => "DRAWTEXT 后期望 '('"@,
        SpecExpected::ConditionComma => "DRAWTEXT 条件后期望 ','"@,
        SpecExpected::PriceComma => "DRAWTEXT 价格表达式后期望 ','"@,
        SpecExpected::DrawTextString => "DRAWTEXT 第三个参数期望字符串"@,
        SpecExpected::DrawTextClose => "DRAWTEXT 期望 ')'"@,
        SpecExpected::CallClose(name) => "函数 "@ + name + " 调用期望 ')'"@,
        SpecExpected::GroupClose => "期望 ')'"@,
        SpecExpected::Expression => "期望表达式"@,
    }
}

/// The message of a parse failure: the place, what was expected, and the
/// token found.
pub open spec fn parse_message(e: SpecParseError) -> Seq<char> {
    position_prefix(e.line, e.col) + expected_text(e.expected) + ", 发现 "@ + token_text(e.found)
}

impl Expected {
    /// Appends the words for what was expected.
    pub fn describe(&self, out: &mut String)
        ensures
            final(out)@ == old(out)@ + expected_text(self@),
    {
        match self {
            Expected::Statement => push_text(out, "期望赋值语句或 DRAWTEXT"),
            Expected::DrawTextOpen => push_text(out, "DRAWTEXT 后期望 '('"),
            Expected::ConditionComma => push_text(out, "DRAWTEXT 条件后期望 ','"),
            Expected::PriceComma => push_text(out, "DRAWTEXT 价格表达式后期望 ','"),
            Expected::DrawTextString => push_text(out, "DRAWTEXT 第三个参数期望字符串"),
            Expected::DrawTextClose => push_text(out, "DRAWTEXT 期望 ')'"),
            Expected::CallClose(name) => {
                push_text(out, "函数 ");
                push_text(out, name.as_str());
                push_text(out, " 调用期望 ')'");
                assert(out@ =~= old(out)@ + expected_text(self@));
            },
            Expected::GroupClose => push_text(out, "期望 ')'"),
            Expected::Expression => push_text(out, "期望表达式"),
        }
    }
}

impl ParseError {
    /// The failure in words.
    pub fn message(&self) -> (m: String)
        ensures
            m@ == parse_message(self@),
    {
        let mut m = String::new();
        push_position(&mut m, self.line, self.col);
        self.expected.describe(&mut m);
        push_text(&mut m, ", 发现 ");
        self.found.describe(&mut m);
        assert(m@ =~= parse_message(self@));
        m
    }
}

} // verus!
