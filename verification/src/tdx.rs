//! The formula engine: tokenizer, parser and the static part of evaluation.

pub mod evaluator;
pub mod parser;
pub mod series;
pub mod tokenizer;

use crate::tdx::evaluator::{
    EvalError,
    EvalResult,
    Evaluator,
    SpecEvalError,
    SpecEvalResult,
    eval_message,
    evaluate_spec,
};
use crate::tdx::parser::{
    ParseError,
    Parser,
    SpecParseError,
    SpecStatement,
    Statement,
    parse_message,
    parse_program,
    statement_seq,
};
use crate::tdx::tokenizer::{TokenizeError, Tokenizer, lex, tokenize_message};
use crate::text::strings_seq;
use vstd::prelude::*;

verus! {

/// Why a formula cannot be used.
#[derive(Debug, Clone, PartialEq)]
pub enum FormulaError {
    Tokenize(TokenizeError),
    Parse(ParseError),
    Eval(EvalError),
}

/// The mathematical value of a [`FormulaError`].
pub enum SpecFormulaError {
    Tokenize(TokenizeError),
    Parse(SpecParseError),
    Eval(SpecEvalError),
}

impl View for FormulaError {
    type V = SpecFormulaError;

    open spec fn view(&self) -> SpecFormulaError {
        match self {
            FormulaError::Tokenize(e) => SpecFormulaError::Tokenize(*e),
            FormulaError::Parse(e) => SpecFormulaError::Parse(e@),
            FormulaError::Eval(e) => SpecFormulaError::Eval(e@),
        }
    }
}

/// The message of a formula error.
pub open spec fn formula_message(e: SpecFormulaError) -> Seq<char> {
    match e {
        SpecFormulaError::Tokenize(e) => tokenize_message(e),
        SpecFormulaError::Parse(e) => parse_message(e),
        SpecFormulaError::Eval(e) => eval_message(e),
    }
}

impl FormulaError {
    /// The error in words.
    pub fn message(&self) -> (m: String)
        ensures
            m@ == formula_message(self@),
    {
        match self {
            FormulaError::Tokenize(e) => e.message(),
            FormulaError::Parse(e) => e.message(),
            FormulaError::Eval(e) => e.message(),
        }
    }
}

/// The statements of a formula source, or the first tokenizing or parse
/// error in it.
pub open spec fn parse_source(source: Seq<char>) -> Result<Seq<SpecStatement>, SpecFormulaError> {
    match lex(source) {
        Err(e) => Err(SpecFormulaError::Tokenize(e)),
        Ok(tokens) => match parse_program(tokens) {
            Err(e) => Err(SpecFormulaError::Parse(e)),
            Ok(statements) => Ok(statements),
        },
    }
}

/// What evaluating a formula source over a window of `window` bars yields.
pub open spec fn evaluate_source(window: nat, source: Seq<char>) -> Result<
    SpecEvalResult,
    SpecFormulaError,
> {
    match parse_source(source) {
        Err(e) => Err(e),
        Ok(statements) => match evaluate_spec(window, statements) {
            Err(e) => Err(SpecFormulaError::Eval(e)),
            Ok(result) => Ok(result),
        },
    }
}

/// Tokenizes and parses a formula.
pub fn parse_formula(source: &str) -> (r: Result<Vec<Statement>, FormulaError>)
    ensures
        match r {
            Ok(statements) => parse_source(source@) == Ok::<Seq<SpecStatement>, SpecFormulaError>(
                statement_seq(statements@),
            ),
            Err(e) => parse_source(source@) == Err::<Seq<SpecStatement>, SpecFormulaError>(e@),
        },
{
    let mut tokenizer = Tokenizer::new(source);
    let tokens = match tokenizer.tokenize() {
        Ok(tokens) => tokens,
        Err(e) => {
            return Err(FormulaError::Tokenize(e));
        },
    };
    let mut parser = Parser::new(tokens);
    match parser.parse() {
        Ok(statements) => Ok(statements),
        Err(e) => Err(FormulaError::Parse(e)),
    }
}

/// Parses a formula and resolves it for a window of `window` bars.
pub fn evaluate_formula(source: &str, window: usize) -> (r: Result<EvalResult, FormulaError>)
    ensures
        match r {
            Ok(result) => evaluate_source(window as nat, source@) == Ok::<
                SpecEvalResult,
                SpecFormulaError,
            >(result@),
            Err(e) => evaluate_source(window as nat, source@) == Err::<
                SpecEvalResult,
                SpecFormulaError,
            >(e@),
        },
{
    let statements = match parse_formula(source) {
        Ok(statements) => statements,
        Err(e) => {
            return Err(e);
        },
    };
    let evaluator = Evaluator::new(window);
    match evaluator.evaluate(&statements) {
        Ok(result) => Ok(result),
        Err(e) => Err(FormulaError::Eval(e)),
    }
}

/// What validating a formula reports.
#[derive(Debug)]
pub struct ValidationResult {
    /// Whether the formula tokenizes and parses.
    pub valid: bool,
    /// The message of the error that makes it invalid, if any.
    pub errors: Vec<String>,
    pub warnings: Vec<String>,
    /// The names of the output statements, in order.
    pub output_vars: Vec<String>,
    /// The names of the assignments, in order.
    pub assign_vars: Vec<String>,
    /// The number of `DRAWTEXT` statements.
    pub drawtext_count: usize,
}

/// The mathematical value of a [`ValidationResult`].
pub struct SpecValidation {
    pub valid: bool,
    pub errors: Seq<Seq<char>>,
    pub warnings: Seq<Seq<char>>,
    pub output_vars: Seq<Seq<char>>,
    pub assign_vars: Seq<Seq<char>>,
    pub drawtext_count: nat,
}

impl View for ValidationResult {
    type V = SpecValidation;

    open spec fn view(&self) -> SpecValidation {
        SpecValidation {
            valid: self.valid,
            errors: strings_seq(self.errors@),
            warnings: strings_seq(self.warnings@),
            output_vars: strings_seq(self.output_vars@),
            assign_vars: strings_seq(self.assign_vars@),
            drawtext_count: self.drawtext_count as nat,
        }
    }
}

/// The names of the output statements among the first `n` statements.
pub open spec fn output_names(statements: Seq<SpecStatement>, n: int) -> Seq<Seq<char>>
    decreases n,
{
    if n <= 0 || n > statements.len() {
        Seq::empty()
    } else {
        match statements[n - 1] {
            SpecStatement::Output { name, .. } => output_names(statements, n - 1).push(name),
            _ => output_names(statements, n - 1),
        }
    }
}

/// The names of the assignments among the first `n` statements.
pub open spec fn assign_names(statements: Seq<SpecStatement>, n: int) -> Seq<Seq<char>>
    decreases n,
{
    if n <= 0 || n > statements.len() {
        Seq::empty()
    } else {
        match statements[n - 1] {
            SpecStatement::Assign { name, .. } => assign_names(statements, n - 1).push(name),
            _ => assign_names(statements, n - 1),
        }
    }
}

/// The number of `DRAWTEXT` statements among the first `n` statements.
pub open spec fn drawtext_total(statements: Seq<SpecStatement>, n: int) -> nat
    decreases n,
{
    if n <= 0 || n > statements.len() {
        0
    } else {
        match statements[n - 1] {
            SpecStatement::DrawText { .. } => drawtext_total(statements, n - 1) + 1,
            _ => drawtext_total(statements, n - 1),
        }
    }
}

/// The warning given for a formula that declares no signal.
pub open spec fn no_signal_warning() -> Seq<char> {
    "公式中没有 DRAWTEXT 语句，将无法产生信号提醒"@
}

/// The report on a formula that does not parse.
pub open spec fn invalid_report(e: SpecFormulaError) -> SpecValidation {
    SpecValidation {
        valid: false,
        errors: seq![formula_message(e)],
        warnings: Seq::empty(),
        output_vars: Seq::empty(),
        assign_vars: Seq::empty(),
        drawtext_count: 0,
    }
}

/// The report on a formula with the given statements.
pub open spec fn valid_report(statements: Seq<SpecStatement>) -> SpecValidation {
    let n = statements.len() as int;
    SpecValidation {
        valid: true,
        errors: Seq::empty(),
        warnings: if drawtext_total(statements, n) == 0 {
            seq![no_signal_warning()]
        } else {
            Seq::empty()
        },
        output_vars: output_names(statements, n),
        assign_vars: assign_names(statements, n),
        drawtext_count: drawtext_total(statements, n),
    }
}

/// The report on a formula source.
pub open spec fn validation_of(source: Seq<char>) -> SpecValidation {
    match parse_source(source) {
        Err(e) => invalid_report(e),
        Ok(statements) => valid_report(statements),
    }
}

pub proof fn lemma_drawtext_total_bound(statements: Seq<SpecStatement>, n: int)
    requires
        0 <= n <= statements.len(),
    ensures
        drawtext_total(statements, n) <= n,
    decreases n,
{
    if n > 0 {
        lemma_drawtext_total_bound(statements, n - 1);
    }
}

/// Checks a formula without evaluating it: it is valid if it tokenizes and
/// parses. Names are not resolved, so a valid formula may still fail to
/// evaluate.
pub fn validate_formula(source: &str) -> (result: ValidationResult)
    ensures
        result@ == validation_of(source@),
{
    let statements = match parse_formula(source) {
        Ok(statements) => statements,
        Err(e) => {
            let mut errors: Vec<String> = Vec::new();
            errors.push(e.message());
            let report = ValidationResult {
                valid: false,
                errors,
                warnings: Vec::new(),
                output_vars: Vec::new(),
                assign_vars: Vec::new(),
                drawtext_count: 0,
            };
            assert(report@.errors =~= seq![formula_message(e@)]);
            assert(report@.warnings =~= Seq::<Seq<char>>::empty());
            assert(report@.output_vars =~= Seq::<Seq<char>>::empty());
            assert(report@.assign_vars =~= Seq::<Seq<char>>::empty());
            return report;
        },
    };
    let ghost wanted = statement_seq(statements@);
    let mut outputs: Vec<String> = Vec::new();
    let mut assigns: Vec<String> = Vec::new();
    let mut signals: usize = 0;
    let mut i: usize = 0;
    assert(strings_seq(outputs@) =~= Seq::<Seq<char>>::empty());
    assert(strings_seq(assigns@) =~= Seq::<Seq<char>>::empty());
    while i < statements.len()
        invariant
            i <= statements.len(),
            wanted == statement_seq(statements@),
            strings_seq(outputs@) == output_names(wanted, i as int),
            strings_seq(assigns@) == assign_names(wanted, i as int),
            signals == drawtext_total(wanted, i as int),
        decreases statements.len() - i,
    {
        assert(wanted[i as int] == statements@[i as int]@);
        proof {
            lemma_drawtext_total_bound(wanted, i + 1);
        }
        match &statements[i] {
            Statement::Assign { name, .. } => {
                let ghost before = strings_seq(assigns@);
                assigns.push(name.clone());
                assert(strings_seq(assigns@) =~= before.push(name@));
            },
            Statement::Output { name, .. } => {
                let ghost before = strings_seq(outputs@);
                outputs.push(name.clone());
                assert(strings_seq(outputs@) =~= before.push(name@));
            },
            Statement::DrawText { .. } => {
                signals += 1;
            },
        }
        i += 1;
    }
    let mut warnings: Vec<String> = Vec::new();
    if signals == 0 {
        warnings.push(String::from_str("公式中没有 DRAWTEXT 语句，将无法产生信号提醒"));
        assert(strings_seq(warnings@) =~= seq![no_signal_warning()]);
    } else {
        assert(strings_seq(warnings@) =~= Seq::<Seq<char>>::empty());
    }
    let report = ValidationResult {
        valid: true,
        errors: Vec::new(),
        warnings,
        output_vars: outputs,
        assign_vars: assigns,
        drawtext_count: signals,
    };
    assert(report@.errors =~= Seq::<Seq<char>>::empty());
    report
}

} // verus!
