//! The static part of evaluating a formula over a window of bars.
//!
//! Evaluation binds every name to a series with one value per bar. What
//! the values are is numeric work on the bars; which series each name and
//! call denotes, and whether evaluation fails, depends on the statements
//! alone. This module decides the latter: it resolves every variable to the
//! built-in series or earlier statement it refers to, every call to a
//! built-in function of the right arity, and reports the first unbound
//! name, unknown function or wrong argument count in evaluation order.

use crate::tdx::parser::{
    BinOp,
    Expr,
    SpecExpr,
    SpecStatement,
    Statement,
    UnOp,
    expr_seq,
    lemma_call_view,
    statement_seq,
};
use crate::text::{chars_of, decimal, push_decimal, push_text, same_chars, uppercase};
use vstd::prelude::*;

verus! {

/// The series that every window provides.
#[derive(Debug, Clone, Copy, PartialEq, Eq, Structural)]
pub enum BuiltinVar {
    Close,
    Open,
    High,
    Low,
    Volume,
}

/// The built-in functions.
#[derive(Debug, Clone, Copy, PartialEq, Eq, Structural)]
pub enum Func {
    Ma,
    Ema,
    Sma,
    Ref,
    Llv,
    Hhv,
    If,
    Max,
    Min,
    Abs,
    Cross,
    Count,
    Every,
    Barslast,
    Avedev,
    Std,
    Slope,
    Exist,
    Intpart,
}

impl Func {
    /// The number of arguments the function takes.
    pub open spec fn spec_arity(self) -> usize {
        match self {
            Func::Abs | Func::Barslast | Func::Intpart => 1,
            Func::Sma | Func::If => 3,
            _ => 2,
        }
    }

    /// The number of arguments the function takes.
    #[verifier::when_used_as_spec(spec_arity)]
    pub fn arity(self) -> (n: usize)
        ensures
            n == self.spec_arity(),
    {
        match self {
            Func::Abs | Func::Barslast | Func::Intpart => 1,
            Func::Sma | Func::If => 3,
            _ => 2,
        }
    }
}

/// The built-in function with the given upper-case name.
pub open spec fn func_named(upper: Seq<char>) -> Option<Func> {
    if upper == "MA"@ {
        Some(Func::Ma)
    } else if upper == "EMA"@ {
        Some(Func::Ema)
    } else if upper == "SMA"@ {
        Some(Func::Sma)
    } else if upper == "REF"@ {
        Some(Func::Ref)
    } else if upper == "LLV"@ {
        Some(Func::Llv)
    } else if upper == "HHV"@ {
        Some(Func::Hhv)
    } else if upper == "IF"@ {
        Some(Func::If)
    } else if upper == "MAX"@ {
        Some(Func::Max)
    } else if upper == "MIN"@ {
        Some(Func::Min)
    } else if upper == "ABS"@ {
        Some(Func::Abs)
    } else if upper == "CROSS"@ {
        Some(Func::Cross)
    } else if upper == "COUNT"@ {
        Some(Func::Count)
    } else if upper == "EVERY"@ {
        Some(Func::Every)
    } else if upper == "BARSLAST"@ {
        Some(Func::Barslast)
    } else if upper == "AVEDEV"@ {
        Some(Func::Avedev)
    } else if upper == "STD"@ {
        Some(Func::Std)
    } else if upper == "SLOPE"@ {
        Some(Func::Slope)
    } else if upper == "EXIST"@ {
        Some(Func::Exist)
    } else if upper == "INTPART"@ {
        Some(Func::Intpart)
    } else {
        None
    }
}

/// The built-in function with the given upper-case name.
pub fn find_func(upper: &str) -> (r: Option<Func>)
    ensures
        r == func_named(upper@),
{
    let u = chars_of(upper);
    if same_chars(&u, &chars_of("MA")) {
        Some(Func::Ma)
    } else if same_chars(&u, &chars_of("EMA")) {
        Some(Func::Ema)
    } else if same_chars(&u, &chars_of("SMA")) {
        Some(Func::Sma)
    } else if same_chars(&u, &chars_of("REF")) {
        Some(Func::Ref)
    } else if same_chars(&u, &chars_of("LLV")) {
        Some(Func::Llv)
    } else if same_chars(&u, &chars_of("HHV")) {
        Some(Func::Hhv)
    } else if same_chars(&u, &chars_of("IF")) {
        Some(Func::If)
    } else if same_chars(&u, &chars_of("MAX")) {
        Some(Func::Max)
    } else if same_chars(&u, &chars_of("MIN")) {
        Some(Func::Min)
    } else if same_chars(&u, &chars_of("ABS")) {
        Some(Func::Abs)
    } else if same_chars(&u, &chars_of("CROSS")) {
        Some(Func::Cross)
    } else if same_chars(&u, &chars_of("COUNT")) {
        Some(Func::Count)
    } else if same_chars(&u, &chars_of("EVERY")) {
        Some(Func::Every)
    } else if same_chars(&u, &chars_of("BARSLAST")) {
        Some(Func::Barslast)
    } else if same_chars(&u, &chars_of("AVEDEV")) {
        Some(Func::Avedev)
    } else if same_chars(&u, &chars_of("STD")) {
        Some(Func::Std)
    } else if same_chars(&u, &chars_of("SLOPE")) {
        Some(Func::Slope)
    } else if same_chars(&u, &chars_of("EXIST")) {
        Some(Func::Exist)
    } else if same_chars(&u, &chars_of("INTPART")) {
        Some(Func::Intpart)
    } else {
        None
    }
}

/// Where the series of a variable comes from.
#[derive(Debug, Clone, Copy, PartialEq, Eq, Structural)]
pub enum Source {
    /// A series of the window.
    Builtin(BuiltinVar),
    /// The series bound by an earlier statement, by its index among the
    /// bindings.
    Binding(usize),
}

/// An expression whose names are resolved.
#[derive(Debug)]
pub enum Series {
    /// A decimal literal: the same value on every bar.
    Number(String),
    /// A string literal: as a series it is 0 on every bar.
    Text(String),
    Variable(Source),
    Binary { op: BinOp, left: Box<Series>, right: Box<Series> },
    Unary { op: UnOp, operand: Box<Series> },
    /// A call of a built-in function with as many arguments as it takes.
    /// An argument that stands for a period counts by its value on the last
    /// bar.
    Call { func: Func, args: Vec<Series> },
}

/// The mathematical value of a [`Series`].
pub enum SpecSeries {
    Number(Seq<char>),
    Text(Seq<char>),
    Variable(Source),
    Binary { op: BinOp, left: Box<SpecSeries>, right: Box<SpecSeries> },
    Unary { op: UnOp, operand: Box<SpecSeries> },
    Call { func: Func, args: Seq<SpecSeries> },
}

impl View for Series {
    type V = SpecSeries;

    open spec fn view(&self) -> SpecSeries {
        series_value(*self)
    }
}

/// The value of a series expression.
pub open spec fn series_value(s: Series) -> SpecSeries
    decreases s, 0int,
{
    match s {
        Series::Number(n) => SpecSeries::Number(n@),
        Series::Text(t) => SpecSeries::Text(t@),
        Series::Variable(source) => SpecSeries::Variable(source),
        Series::Binary { op, left, right } => SpecSeries::Binary {
            op,
            left: Box::new(series_value(*left)),
            right: Box::new(series_value(*right)),
        },
        Series::Unary { op, operand } => SpecSeries::Unary {
            op,
            operand: Box::new(series_value(*operand)),
        },
        Series::Call { func, args } => SpecSeries::Call {
            func,
            args: series_values(args, args@.len() as int),
        },
    }
}

/// The values of the first `n` series of a vector.
pub open spec fn series_values(v: Vec<Series>, n: int) -> Seq<SpecSeries>
    decreases v, n,
{
    if n <= 0 || n > v@.len() {
        Seq::empty()
    } else {
        series_values(v, n - 1).push(series_value(v@[n - 1]))
    }
}

/// The values of a vector of series.
pub open spec fn series_seq(v: Seq<Series>) -> Seq<SpecSeries> {
    v.map_values(|s: Series| s@)
}

proof fn lemma_series_values(v: Vec<Series>, n: int)
    requires
        0 <= n <= v@.len(),
    ensures
        series_values(v, n) == series_seq(v@.take(n)),
    decreases n,
{
    if n > 0 {
        lemma_series_values(v, n - 1);
        assert(series_seq(v@.take(n)) =~= series_seq(v@.take(n - 1)).push(v@[n - 1]@));
    } else {
        assert(series_seq(v@.take(n)) =~= Seq::<SpecSeries>::empty());
    }
}

/// The value of a call is the call of the values of its arguments.
pub proof fn lemma_series_call_view(func: Func, args: Vec<Series>)
    ensures
        (Series::Call { func, args })@ == (SpecSeries::Call { func, args: series_seq(args@) }),
{
    lemma_series_values(args, args@.len() as int);
    assert(args@.take(args@.len() as int) =~= args@);
}

/// An exported series: its name and its index among the bindings.
#[derive(Debug)]
pub struct Output {
    pub name: String,
    pub binding: usize,
}

/// The mathematical value of an [`Output`].
pub struct SpecOutput {
    pub name: Seq<char>,
    pub binding: usize,
}

impl View for Output {
    type V = SpecOutput;

    open spec fn view(&self) -> SpecOutput {
        SpecOutput { name: self.name@, binding: self.binding }
    }
}

/// A signal of a `DRAWTEXT` statement. It is triggered when the condition
/// holds on the last bar; its value is the price on the last bar.
#[derive(Debug)]
pub struct Signal {
    pub text: String,
    pub condition: Series,
    pub price: Series,
}

/// The mathematical value of a [`Signal`].
pub struct SpecSignal {
    pub text: Seq<char>,
    pub condition: SpecSeries,
    pub price: SpecSeries,
}

impl View for Signal {
    type V = SpecSignal;

    open spec fn view(&self) -> SpecSignal {
        SpecSignal { text: self.text@, condition: self.condition@, price: self.price@ }
    }
}

/// What a formula computes: the series of its bindings, in statement order,
/// the exported names, and the signals, in statement order.
#[derive(Debug)]
pub struct EvalResult {
    pub bindings: Vec<Series>,
    pub outputs: Vec<Output>,
    pub signals: Vec<Signal>,
}

/// The mathematical value of an [`EvalResult`].
pub struct SpecEvalResult {
    pub bindings: Seq<SpecSeries>,
    pub outputs: Seq<SpecOutput>,
    pub signals: Seq<SpecSignal>,
}

impl View for EvalResult {
    type V = SpecEvalResult;

    open spec fn view(&self) -> SpecEvalResult {
        SpecEvalResult {
            bindings: series_seq(self.bindings@),
            outputs: self.outputs@.map_values(|o: Output| o@),
            signals: self.signals@.map_values(|s: Signal| s@),
        }
    }
}

/// Why evaluation fails.
#[derive(Debug, Clone, PartialEq)]
pub enum EvalError {
    /// The window holds no bar.
    EmptyWindow,
    /// A call of a function that is not built in; the name as written.
    UnknownFunction(String),
    /// A call with the wrong number of arguments; the name in upper case.
    ArityError { name: String, expected: usize, actual: usize },
    /// A variable that nothing has bound; the name as written.
    UnboundVariable(String),
}

/// The mathematical value of an [`EvalError`].
pub enum SpecEvalError {
    EmptyWindow,
    UnknownFunction(Seq<char>),
    ArityError { name: Seq<char>, expected: usize, actual: usize },
    UnboundVariable(Seq<char>),
}

impl View for EvalError {
    type V = SpecEvalError;

    open spec fn view(&self) -> SpecEvalError {
        match self {
            EvalError::EmptyWindow => SpecEvalError::EmptyWindow,
            EvalError::UnknownFunction(name) => SpecEvalError::UnknownFunction(name@),
            EvalError::ArityError { name, expected, actual } => SpecEvalError::ArityError {
                name: name@,
                expected: *expected,
                actual: *actual,
            },
            EvalError::UnboundVariable(name) => SpecEvalError::UnboundVariable(name@),
        }
    }
}

/// A name and the series it stands for.
pub struct EnvEntry {
    pub key: String,
    pub source: Source,
}

/// The mathematical value of an [`EnvEntry`].
pub struct SpecEnvEntry {
    pub key: Seq<char>,
    pub source: Source,
}

impl View for EnvEntry {
    type V = SpecEnvEntry;

    open spec fn view(&self) -> SpecEnvEntry {
        SpecEnvEntry { key: self.key@, source: self.source }
    }
}

/// The values of a vector of environment entries.
pub open spec fn env_seq(v: Seq<EnvEntry>) -> Seq<SpecEnvEntry> {
    v.map_values(|e: EnvEntry| e@)
}

/// The names that every window binds.
pub open spec fn builtin_env() -> Seq<SpecEnvEntry> {
    seq![
        SpecEnvEntry { key: "CLOSE"@, source: Source::Builtin(BuiltinVar::Close) },
        SpecEnvEntry { key: "C"@, source: Source::Builtin(BuiltinVar::Close) },
        SpecEnvEntry { key: "OPEN"@, source: Source::Builtin(BuiltinVar::Open) },
        SpecEnvEntry { key: "O"@, source: Source::Builtin(BuiltinVar::Open) },
        SpecEnvEntry { key: "HIGH"@, source: Source::Builtin(BuiltinVar::High) },
        SpecEnvEntry { key: "H"@, source: Source::Builtin(BuiltinVar::High) },
        SpecEnvEntry { key: "LOW"@, source: Source::Builtin(BuiltinVar::Low) },
        SpecEnvEntry { key: "L"@, source: Source::Builtin(BuiltinVar::Low) },
        SpecEnvEntry { key: "VOLUME"@, source: Source::Builtin(BuiltinVar::Volume) },
        SpecEnvEntry { key: "V"@, source: Source::Builtin(BuiltinVar::Volume) },
        SpecEnvEntry { key: "VOL"@, source: Source::Builtin(BuiltinVar::Volume) },
    ]
}

/// The source of the last of the first `n` entries whose key is `key`.
pub open spec fn lookup_in(env: Seq<SpecEnvEntry>, n: int, key: Seq<char>) -> Option<Source>
    decreases n,
{
    if n <= 0 || n > env.len() {
        None
    } else if env[n - 1].key == key {
        Some(env[n - 1].source)
    } else {
        lookup_in(env, n - 1, key)
    }
}

/// What a name is bound to: the latest entry with that key. A later binding
/// of a name hides an earlier one.
pub open spec fn lookup(env: Seq<SpecEnvEntry>, key: Seq<char>) -> Option<Source> {
    lookup_in(env, env.len() as int, key)
}

/// A resolved expression, or the first error in evaluation order.
pub type SeriesOutcome = Result<SpecSeries, SpecEvalError>;

/// The series that `e` denotes in `env`. A variable is looked up by its
/// upper-case form. A call is checked for its function, then for its
/// argument count, then its arguments are resolved from left to right.
pub open spec fn resolve_expr(env: Seq<SpecEnvEntry>, e: SpecExpr) -> SeriesOutcome
    decreases e, 0int,
{
    match e {
        SpecExpr::Number(n) => Ok(SpecSeries::Number(n)),
        SpecExpr::Str(s) => Ok(SpecSeries::Text(s)),
        SpecExpr::Variable(name) => match lookup(env, uppercase(name)) {
            Some(source) => Ok(SpecSeries::Variable(source)),
            None => Err(SpecEvalError::UnboundVariable(name)),
        },
        SpecExpr::BinaryOp { op, left, right } => match resolve_expr(env, *left) {
            Err(e) => Err(e),
            Ok(l) => match resolve_expr(env, *right) {
                Err(e) => Err(e),
                Ok(r) => Ok(SpecSeries::Binary { op, left: Box::new(l), right: Box::new(r) }),
            },
        },
        SpecExpr::UnaryOp { op, operand } => match resolve_expr(env, *operand) {
            Err(e) => Err(e),
            Ok(s) => Ok(SpecSeries::Unary { op, operand: Box::new(s) }),
        },
        SpecExpr::FuncCall { name, args } => match func_named(uppercase(name)) {
            None => Err(SpecEvalError::UnknownFunction(name)),
            Some(func) => if args.len() != func.spec_arity() {
                Err(
                    SpecEvalError::ArityError {
                        name: uppercase(name),
                        expected: func.spec_arity(),
                        actual: args.len() as usize,
                    },
                )
            } else {
                match resolve_args(env, args, args.len() as int) {
                    Err(e) => Err(e),
                    Ok(resolved) => Ok(SpecSeries::Call { func, args: resolved }),
                }
            },
        },
    }
}

/// The series of the first `n` of `args`, resolved from left to right.
pub open spec fn resolve_args(env: Seq<SpecEnvEntry>, args: Seq<SpecExpr>, n: int) -> Result<
    Seq<SpecSeries>,
    SpecEvalError,
>
    decreases args, n,
{
    if n <= 0 || n > args.len() {
        Ok(Seq::empty())
    } else {
        match resolve_args(env, args, n - 1) {
            Err(e) => Err(e),
            Ok(front) => match resolve_expr(env, args[n - 1]) {
                Err(e) => Err(e),
                Ok(s) => Ok(front.push(s)),
            },
        }
    }
}

/// The names bound so far and what has been computed so far.
pub struct ResolveState {
    pub env: Seq<SpecEnvEntry>,
    pub result: SpecEvalResult,
}

/// The state before the first statement: the built-in names, and nothing
/// computed.
pub open spec fn initial_state() -> ResolveState {
    ResolveState {
        env: builtin_env(),
        result: SpecEvalResult {
            bindings: Seq::empty(),
            outputs: Seq::empty(),
            signals: Seq::empty(),
        },
    }
}

/// The state after a binding of `name` to `series`, exported or not. The
/// name is bound by its upper-case form, the form by which variables are
/// looked up, so that a name can be referred to in any case; an exported
/// name is listed as written.
pub open spec fn bind(
    state: ResolveState,
    name: Seq<char>,
    series: SpecSeries,
    exported: bool,
) -> ResolveState {
    let index = state.result.bindings.len() as usize;
    ResolveState {
        env: state.env.push(
            SpecEnvEntry { key: uppercase(name), source: Source::Binding(index) },
        ),
        result: SpecEvalResult {
            bindings: state.result.bindings.push(series),
            outputs: if exported {
                state.result.outputs.push(SpecOutput { name, binding: index })
            } else {
                state.result.outputs
            },
            signals: state.result.signals,
        },
    }
}

/// The state after one statement, or the first error in it.
pub open spec fn resolve_statement(state: ResolveState, statement: SpecStatement) -> Result<
    ResolveState,
    SpecEvalError,
> {
    match statement {
        SpecStatement::Assign { name, expr } => match resolve_expr(state.env, expr) {
            Err(e) => Err(e),
            Ok(series) => Ok(bind(state, name, series, false)),
        },
        SpecStatement::Output { name, expr } => match resolve_expr(state.env, expr) {
            Err(e) => Err(e),
            Ok(series) => Ok(bind(state, name, series, true)),
        },
        SpecStatement::DrawText { condition, price_expr, text } => match resolve_expr(
            state.env,
            condition,
        ) {
            Err(e) => Err(e),
            Ok(c) => match resolve_expr(state.env, price_expr) {
                Err(e) => Err(e),
                Ok(p) => Ok(
                    ResolveState {
                        env: state.env,
                        result: SpecEvalResult {
                            bindings: state.result.bindings,
                            outputs: state.result.outputs,
                            signals: state.result.signals.push(
                                SpecSignal { text, condition: c, price: p },
                            ),
                        },
                    },
                ),
            },
        },
    }
}

/// The state after the first `n` statements, or the first error in them.
pub open spec fn resolve_statements(statements: Seq<SpecStatement>, n: int) -> Result<
    ResolveState,
    SpecEvalError,
>
    decreases n,
{
    if n <= 0 || n > statements.len() {
        Ok(initial_state())
    } else {
        match resolve_statements(statements, n - 1) {
            Err(e) => Err(e),
            Ok(state) => resolve_statement(state, statements[n - 1]),
        }
    }
}

/// What evaluating `statements` over a window of `window` bars yields. An
/// empty window is an error whatever the statements are.
pub open spec fn evaluate_spec(window: nat, statements: Seq<SpecStatement>) -> Result<
    SpecEvalResult,
    SpecEvalError,
> {
    if window == 0 {
        Err(SpecEvalError::EmptyWindow)
    } else {
        match resolve_statements(statements, statements.len() as int) {
            Err(e) => Err(e),
            Ok(state) => Ok(state.result),
        }
    }
}

/// The value of the result of resolving an expression.
pub open spec fn series_outcome(r: Result<Series, EvalError>) -> SeriesOutcome {
    match r {
        Ok(s) => Ok(s@),
        Err(e) => Err(e@),
    }
}

/// The value of the result of an evaluation.
pub open spec fn eval_outcome(r: Result<EvalResult, EvalError>) -> Result<
    SpecEvalResult,
    SpecEvalError,
> {
    match r {
        Ok(s) => Ok(s@),
        Err(e) => Err(e@),
    }
}

fn entry(key: &str, var: BuiltinVar) -> (e: EnvEntry)
    ensures
        e@ == (SpecEnvEntry { key: key@, source: Source::Builtin(var) }),
{
    EnvEntry { key: String::from_str(key), source: Source::Builtin(var) }
}

/// What `key` is bound to in `env`.
fn find(env: &Vec<EnvEntry>, key: &str) -> (r: Option<Source>)
    ensures
        r == lookup(env_seq(env@), key@),
{
    let wanted = chars_of(key);
    let mut n: usize = env.len();
    while n > 0
        invariant
            n <= env.len(),
            wanted@ == key@,
            lookup_in(env_seq(env@), n as int, key@) == lookup(env_seq(env@), key@),
        decreases n,
    {
        let candidate = chars_of(env[n - 1].key.as_str());
        if same_chars(&candidate, &wanted) {
            return Some(env[n - 1].source);
        }
        n -= 1;
    }
    None
}

/// Evaluates formulas over a window of bars of a given length.
pub struct Evaluator {
    len: usize,
}

impl Evaluator {
    /// The number of bars in the window.
    pub closed spec fn window(&self) -> nat {
        self.len as nat
    }

    /// An evaluator for a window of `len` bars.
    pub fn new(len: usize) -> (e: Self)
        ensures
            e.window() == len,
    {
        Evaluator { len }
    }

    /// The names that every window binds.
    fn init_builtin_vars() -> (env: Vec<EnvEntry>)
        ensures
            env_seq(env@) == builtin_env(),
    {
        let mut env: Vec<EnvEntry> = Vec::new();
        env.push(entry("CLOSE", BuiltinVar::Close));
        env.push(entry("C", BuiltinVar::Close));
        env.push(entry("OPEN", BuiltinVar::Open));
        env.push(entry("O", BuiltinVar::Open));
        env.push(entry("HIGH", BuiltinVar::High));
        env.push(entry("H", BuiltinVar::High));
        env.push(entry("LOW", BuiltinVar::Low));
        env.push(entry("L", BuiltinVar::Low));
        env.push(entry("VOLUME", BuiltinVar::Volume));
        env.push(entry("V", BuiltinVar::Volume));
        env.push(entry("VOL", BuiltinVar::Volume));
        assert(env_seq(env@) =~= builtin_env());
        env
    }

    /// An error unless a call has as many arguments as its function takes.
    fn check_args(upper: &String, actual: usize, expected: usize) -> (r: Result<(), EvalError>)
        ensures
            r is Ok == (actual == expected),
            r matches Err(e) ==> e@ == (SpecEvalError::ArityError {
                name: upper@,
                expected,
                actual,
            }),
    {
        if actual != expected {
            Err(EvalError::ArityError { name: upper.clone(), expected, actual })
        } else {
            Ok(())
        }
    }

    #[verifier::loop_isolation(false)]
    fn eval_expr(env: &Vec<EnvEntry>, expr: &Expr) -> (r: Result<Series, EvalError>)
        ensures
            series_outcome(r) == resolve_expr(env_seq(env@), expr@),
        decreases expr, 1int,
    {
        match expr {
            Expr::Number(n) => Ok(Series::Number(n.clone())),
            Expr::Str(s) => Ok(Series::Text(s.clone())),
            Expr::Variable(name) => {
                let upper = name.as_str().to_uppercase();
                match find(env, upper.as_str()) {
                    Some(source) => Ok(Series::Variable(source)),
                    None => Err(EvalError::UnboundVariable(name.clone())),
                }
            },
            Expr::BinaryOp { op, left, right } => {
                let l = match Self::eval_expr(env, &**left) {
                    Ok(l) => l,
                    Err(e) => {
                        return Err(e);
                    },
                };
                let r = match Self::eval_expr(env, &**right) {
                    Ok(r) => r,
                    Err(e) => {
                        return Err(e);
                    },
                };
                Ok(Series::Binary { op: *op, left: Box::new(l), right: Box::new(r) })
            },
            Expr::UnaryOp { op, operand } => match Self::eval_expr(env, &**operand) {
                Ok(s) => Ok(Series::Unary { op: *op, operand: Box::new(s) }),
                Err(e) => Err(e),
            },
            Expr::FuncCall { name, args } => {
                proof {
                    lemma_call_view(*name, *args);
                }
                Self::eval_func(env, name, args)
            },
        }
    }

    /// Resolves the call of `name` with `args`.
    #[verifier::loop_isolation(false)]
    fn eval_func(env: &Vec<EnvEntry>, name: &String, args: &Vec<Expr>) -> (r: Result<
        Series,
        EvalError,
    >)
        ensures
            series_outcome(r) == resolve_expr(
                env_seq(env@),
                SpecExpr::FuncCall { name: name@, args: expr_seq(args@) },
            ),
        decreases args, 0int,
    {
        let upper = name.as_str().to_uppercase();
        let func = match find_func(upper.as_str()) {
            Some(func) => func,
            None => {
                return Err(EvalError::UnknownFunction(name.clone()));
            },
        };
        match Self::check_args(&upper, args.len(), func.arity()) {
            Err(e) => {
                return Err(e);
            },
            Ok(()) => {},
        }
        let ghost wanted = expr_seq(args@);
        let mut resolved: Vec<Series> = Vec::new();
        let mut i: usize = 0;
        assert(series_seq(resolved@) =~= Seq::<SpecSeries>::empty());
        while i < args.len()
            invariant
                i <= args.len(),
                resolve_args(env_seq(env@), wanted, i as int) == Ok::<
                    Seq<SpecSeries>,
                    SpecEvalError,
                >(series_seq(resolved@)),
            decreases args.len() - i,
        {
            match Self::eval_expr(env, &args[i]) {
                Err(e) => {
                    proof {
                        lemma_args_error(env_seq(env@), wanted, i + 1, args.len() as int);
                    }
                    return Err(e);
                },
                Ok(series) => {
                    let ghost before = series_seq(resolved@);
                    let ghost value = series@;
                    resolved.push(series);
                    assert(series_seq(resolved@) =~= before.push(value));
                },
            }
            i += 1;
        }
        proof {
            lemma_series_call_view(func, resolved);
        }
        Ok(Series::Call { func, args: resolved })
    }

    /// Resolves `statements` for this window: every name to its series,
    /// every call to its function, in statement order. Fails on an empty
    /// window and on the first unbound name, unknown function or wrong
    /// argument count.
    pub fn evaluate(&self, statements: &Vec<Statement>) -> (r: Result<EvalResult, EvalError>)
        ensures
            eval_outcome(r) == evaluate_spec(self.window(), statement_seq(statements@)),
            r matches Ok(result) ==> result_wf(result@),
    {
        proof {
            lemma_statements_wf(statement_seq(statements@), statements.len() as int);
        }
        if self.len == 0 {
            return Err(EvalError::EmptyWindow);
        }
        let ghost wanted = statement_seq(statements@);
        let mut env = Self::init_builtin_vars();
        let mut result = EvalResult {
            bindings: Vec::new(),
            outputs: Vec::new(),
            signals: Vec::new(),
        };
        assert(result@.bindings =~= Seq::<SpecSeries>::empty());
        assert(result@.outputs =~= Seq::<SpecOutput>::empty());
        assert(result@.signals =~= Seq::<SpecSignal>::empty());
        let mut i: usize = 0;
        while i < statements.len()
            invariant
                i <= statements.len(),
                self.len != 0,
                wanted == statement_seq(statements@),
                resolve_statements(wanted, i as int) == Ok::<ResolveState, SpecEvalError>(
                    ResolveState { env: env_seq(env@), result: result@ },
                ),
            decreases statements.len() - i,
        {
            let ghost state = ResolveState { env: env_seq(env@), result: result@ };
            let ghost old_env = env_seq(env@);
            let ghost old_result = result@;
            assert(wanted[i as int] == statements@[i as int]@);
            match &statements[i] {
                Statement::Assign { name, expr } => {
                    match Self::eval_expr(&env, expr) {
                        Err(e) => {
                            proof {
                                lemma_statements_error(wanted, i + 1, statements.len() as int);
                            }
                            return Err(e);
                        },
                        Ok(series) => {
                            let index = result.bindings.len();
                            let ghost value = series@;
                            result.bindings.push(series);
                            env.push(
                                EnvEntry {
                                    key: name.as_str().to_uppercase(),
                                    source: Source::Binding(index),
                                },
                            );
                            proof {
                                let next = bind(state, name@, value, false);
                                assert(env_seq(env@) =~= next.env);
                                assert(result@.bindings =~= next.result.bindings);
                                assert(result@.outputs =~= next.result.outputs);
                                assert(result@.signals =~= next.result.signals);
                            }
                        },
                    }
                },
                Statement::Output { name, expr } => {
                    match Self::eval_expr(&env, expr) {
                        Err(e) => {
                            proof {
                                lemma_statements_error(wanted, i + 1, statements.len() as int);
                            }
                            return Err(e);
                        },
                        Ok(series) => {
                            let index = result.bindings.len();
                            let ghost value = series@;
                            result.bindings.push(series);
                            result.outputs.push(Output { name: name.clone(), binding: index });
                            env.push(
                                EnvEntry {
                                    key: name.as_str().to_uppercase(),
                                    source: Source::Binding(index),
                                },
                            );
                            proof {
                                let next = bind(state, name@, value, true);
                                assert(env_seq(env@) =~= next.env);
                                assert(result@.bindings =~= next.result.bindings);
                                assert(result@.outputs =~= next.result.outputs);
                                assert(result@.signals =~= next.result.signals);
                            }
                        },
                    }
                },
                Statement::DrawText { condition, price_expr, text } => {
                    let c = match Self::eval_expr(&env, condition) {
                        Ok(c) => c,
                        Err(e) => {
                            proof {
                                lemma_statements_error(wanted, i + 1, statements.len() as int);
                            }
                            return Err(e);
                        },
                    };
                    let p = match Self::eval_expr(&env, price_expr) {
                        Ok(p) => p,
                        Err(e) => {
                            proof {
                                lemma_statements_error(wanted, i + 1, statements.len() as int);
                            }
                            return Err(e);
                        },
                    };
                    let ghost signal = SpecSignal { text: text@, condition: c@, price: p@ };
                    result.signals.push(Signal { text: text.clone(), condition: c, price: p });
                    proof {
                        assert(result@.bindings =~= old_result.bindings);
                        assert(result@.outputs =~= old_result.outputs);
                        assert(result@.signals =~= old_result.signals.push(signal));
                    }
                },
            }
            i += 1;
        }
        Ok(result)
    }
}

/// Once the first `n` arguments fail to resolve, so do the first `m`, with
/// the same error.
pub proof fn lemma_args_error(env: Seq<SpecEnvEntry>, args: Seq<SpecExpr>, n: int, m: int)
    requires
        0 <= n <= m <= args.len(),
        resolve_args(env, args, n) is Err,
    ensures
        resolve_args(env, args, m) == resolve_args(env, args, n),
    decreases m - n,
{
    if n < m {
        lemma_args_error(env, args, n, m - 1);
    }
}

/// Once the first `n` statements fail to resolve, so do the first `m`, with
/// the same error.
pub proof fn lemma_statements_error(statements: Seq<SpecStatement>, n: int, m: int)
    requires
        0 <= n <= m <= statements.len(),
        resolve_statements(statements, n) is Err,
    ensures
        resolve_statements(statements, m) == resolve_statements(statements, n),
    decreases m - n,
{
    if n < m {
        lemma_statements_error(statements, n, m - 1);
    }
}

/// The message of an evaluation failure.
pub open spec fn eval_message(e: SpecEvalError) -> Seq<char> {
    match e {
        SpecEvalError::EmptyWindow => "K线数据为空"@,
        SpecEvalError::UnknownFunction(name) => "不支持的函数: "@ + name,
        SpecEvalError::ArityError { name, expected, actual } => "函数 "@ + name + " 需要 "@ + decimal(
            expected as nat,
        ) + " 个参数，实际传入 "@ + decimal(actual as nat) + " 个"@,
        SpecEvalError::UnboundVariable(name) => "未定义的变量: "@ + name,
    }
}

impl EvalError {
    /// The failure in words.
    pub fn message(&self) -> (m: String)
        ensures
            m@ == eval_message(self@),
    {
        let mut m = String::new();
        match self {
            EvalError::EmptyWindow => {
                push_text(&mut m, "K线数据为空");
            },
            EvalError::UnknownFunction(name) => {
                push_text(&mut m, "不支持的函数: ");
                push_text(&mut m, name.as_str());
            },
            EvalError::ArityError { name, expected, actual } => {
                push_text(&mut m, "函数 ");
                push_text(&mut m, name.as_str());
                push_text(&mut m, " 需要 ");
                push_decimal(&mut m, *expected as u64);
                push_text(&mut m, " 个参数，实际传入 ");
                push_decimal(&mut m, *actual as u64);
                push_text(&mut m, " 个");
            },
            EvalError::UnboundVariable(name) => {
                push_text(&mut m, "未定义的变量: ");
                push_text(&mut m, name.as_str());
            },
        }
        assert(m@ =~= eval_message(self@));
        m
    }
}

/// Every output statement exports its name: if evaluation succeeds, the
/// outputs hold the name of each `Output` statement.
pub proof fn lemma_outputs_exported(window: nat, statements: Seq<SpecStatement>, i: int)
    requires
        evaluate_spec(window, statements) is Ok,
        0 <= i < statements.len(),
        statements[i] is Output,
    ensures
        exists|j: int|
            0 <= j < evaluate_spec(window, statements)->Ok_0.outputs.len() && (#[trigger] evaluate_spec(
                window,
                statements,
            )->Ok_0.outputs[j]).name == statements[i]->Output_name,
{
    lemma_output_kept(statements, i, statements.len() as int);
    let outputs = resolve_statements(statements, statements.len() as int)->Ok_0.result.outputs;
    let j = choose|j: int|
        0 <= j < outputs.len() && (#[trigger] outputs[j]).name == statements[i]->Output_name;
    assert(evaluate_spec(window, statements)->Ok_0.outputs[j].name == statements[i]->Output_name);
}

/// The name of the output statement `i` is among the outputs after any
/// `n > i` statements that resolve.
pub proof fn lemma_output_kept(statements: Seq<SpecStatement>, i: int, n: int)
    requires
        0 <= i < n <= statements.len(),
        statements[i] is Output,
        resolve_statements(statements, n) is Ok,
    ensures
        exists|j: int|
            0 <= j < resolve_statements(statements, n)->Ok_0.result.outputs.len() && (
            #[trigger] resolve_statements(statements, n)->Ok_0.result.outputs[j]).name
                == statements[i]->Output_name,
    decreases n,
{
    let after = resolve_statements(statements, n)->Ok_0.result.outputs;
    let before = resolve_statements(statements, n - 1)->Ok_0.result.outputs;
    if n == i + 1 {
        assert(after[after.len() - 1].name == statements[i]->Output_name);
    } else {
        lemma_output_kept(statements, i, n - 1);
        let j = choose|j: int|
            0 <= j < before.len() && (#[trigger] before[j]).name == statements[i]->Output_name;
        assert(after[j] == before[j]);
    }
}

/// Every variable of `s` that refers to a binding refers to one of the
/// first `bound` bindings, and every call has as many arguments as its
/// function takes.
pub open spec fn series_wf(s: SpecSeries, bound: int) -> bool
    decreases s,
{
    match s {
        SpecSeries::Number(_) => true,
        SpecSeries::Text(_) => true,
        SpecSeries::Variable(source) => match source {
            Source::Builtin(_) => true,
            Source::Binding(k) => k < bound,
        },
        SpecSeries::Binary { left, right, .. } => series_wf(*left, bound) && series_wf(
            *right,
            bound,
        ),
        SpecSeries::Unary { operand, .. } => series_wf(*operand, bound),
        SpecSeries::Call { func, args } => args.len() == func.spec_arity() && forall|i: int|
            0 <= i < args.len() ==> series_wf(#[trigger] args[i], bound),
    }
}

/// Every binding refers only to bindings before it, every output to a
/// binding, and every signal only to bindings.
pub open spec fn result_wf(r: SpecEvalResult) -> bool {
    &&& forall|k: int| 0 <= k < r.bindings.len() ==> series_wf(#[trigger] r.bindings[k], k)
    &&& forall|j: int| 0 <= j < r.outputs.len() ==> (#[trigger] r.outputs[j]).binding
        < r.bindings.len()
    &&& forall|j: int|
        0 <= j < r.signals.len() ==> series_wf(
            (#[trigger] r.signals[j]).condition,
            r.bindings.len() as int,
        ) && series_wf(r.signals[j].price, r.bindings.len() as int)
}

/// Every name of `env` that stands for a binding stands for one of the
/// first `bound` bindings.
pub open spec fn env_wf(env: Seq<SpecEnvEntry>, bound: int) -> bool {
    forall|i: int|
        0 <= i < env.len() ==> match (#[trigger] env[i]).source {
            Source::Builtin(_) => true,
            Source::Binding(k) => k < bound,
        }
}

proof fn lemma_lookup_wf(env: Seq<SpecEnvEntry>, n: int, key: Seq<char>, bound: int)
    requires
        env_wf(env, bound),
    ensures
        lookup_in(env, n, key) matches Some(Source::Binding(k)) ==> k < bound,
    decreases n,
{
    if 0 < n <= env.len() && env[n - 1].key != key {
        lemma_lookup_wf(env, n - 1, key, bound);
    }
}

proof fn lemma_series_wf_grows(s: SpecSeries, bound: int, more: int)
    requires
        series_wf(s, bound),
        bound <= more,
    ensures
        series_wf(s, more),
    decreases s,
{
    match s {
        SpecSeries::Binary { left, right, .. } => {
            lemma_series_wf_grows(*left, bound, more);
            lemma_series_wf_grows(*right, bound, more);
        },
        SpecSeries::Unary { operand, .. } => {
            lemma_series_wf_grows(*operand, bound, more);
        },
        SpecSeries::Call { func, args } => {
            assert forall|i: int| 0 <= i < args.len() implies series_wf(
                #[trigger] args[i],
                more,
            ) by {
                lemma_series_wf_grows(args[i], bound, more);
            }
        },
        _ => {},
    }
}

proof fn lemma_resolve_wf(env: Seq<SpecEnvEntry>, e: SpecExpr, bound: int)
    requires
        env_wf(env, bound),
    ensures
        resolve_expr(env, e) matches Ok(s) ==> series_wf(s, bound),
    decreases e, 0int,
{
    match e {
        SpecExpr::Variable(name) => {
            lemma_lookup_wf(env, env.len() as int, uppercase(name), bound);
        },
        SpecExpr::BinaryOp { left, right, .. } => {
            lemma_resolve_wf(env, *left, bound);
            lemma_resolve_wf(env, *right, bound);
        },
        SpecExpr::UnaryOp { operand, .. } => {
            lemma_resolve_wf(env, *operand, bound);
        },
        SpecExpr::FuncCall { name, args } => {
            lemma_resolve_args_wf(env, args, args.len() as int, bound);
        },
        _ => {},
    }
}

proof fn lemma_resolve_args_wf(env: Seq<SpecEnvEntry>, args: Seq<SpecExpr>, n: int, bound: int)
    requires
        env_wf(env, bound),
        0 <= n <= args.len(),
    ensures
        resolve_args(env, args, n) matches Ok(resolved) ==> resolved.len() == n && forall|i: int|
            0 <= i < n ==> series_wf(#[trigger] resolved[i], bound),
    decreases args, n,
{
    if n > 0 {
        lemma_resolve_args_wf(env, args, n - 1, bound);
        lemma_resolve_wf(env, args[n - 1], bound);
    }
}

/// A formula that resolves yields a result whose references all point at
/// earlier bindings and whose calls all have the right argument count.
pub proof fn lemma_statements_wf(statements: Seq<SpecStatement>, n: int)
    requires
        0 <= n <= statements.len() <= usize::MAX,
    ensures
        resolve_statements(statements, n) matches Ok(state) ==> {
            &&& state.result.bindings.len() <= n
            &&& env_wf(state.env, state.result.bindings.len() as int)
            &&& result_wf(state.result)
        },
    decreases n,
{
    if n > 0 {
        lemma_statements_wf(statements, n - 1);
        match resolve_statements(statements, n - 1) {
            Err(_) => {},
            Ok(before) => {
                let bound = before.result.bindings.len() as int;
                match statements[n - 1] {
                    SpecStatement::Assign { name, expr } => {
                        lemma_resolve_wf(before.env, expr, bound);
                        match resolve_expr(before.env, expr) {
                            Ok(series) => {
                                lemma_bind_wf(before, name, series, false);
                            },
                            Err(_) => {},
                        }
                    },
                    SpecStatement::Output { name, expr } => {
                        lemma_resolve_wf(before.env, expr, bound);
                        match resolve_expr(before.env, expr) {
                            Ok(series) => {
                                lemma_bind_wf(before, name, series, true);
                            },
                            Err(_) => {},
                        }
                    },
                    SpecStatement::DrawText { condition, price_expr, text } => {
                        lemma_resolve_wf(before.env, condition, bound);
                        lemma_resolve_wf(before.env, price_expr, bound);
                    },
                }
            },
        }
    }
}

proof fn lemma_bind_wf(state: ResolveState, name: Seq<char>, series: SpecSeries, exported: bool)
    requires
        state.result.bindings.len() < usize::MAX,
        env_wf(state.env, state.result.bindings.len() as int),
        result_wf(state.result),
        series_wf(series, state.result.bindings.len() as int),
    ensures
        env_wf(
            bind(state, name, series, exported).env,
            bind(state, name, series, exported).result.bindings.len() as int,
        ),
        result_wf(bind(state, name, series, exported).result),
{
    let bound = state.result.bindings.len() as int;
    let next = bind(state, name, series, exported);
    assert forall|j: int| 0 <= j < next.result.signals.len() implies series_wf(
        (#[trigger] next.result.signals[j]).condition,
        bound + 1,
    ) && series_wf(next.result.signals[j].price, bound + 1) by {
        lemma_series_wf_grows(state.result.signals[j].condition, bound, bound + 1);
        lemma_series_wf_grows(state.result.signals[j].price, bound, bound + 1);
    }
}

/// The outcome of an evaluation depends on the window length and the
/// statements alone: two evaluations of the same input agree.
pub proof fn lemma_evaluate_deterministic(
    window: nat,
    statements: Seq<SpecStatement>,
    first: Result<EvalResult, EvalError>,
    second: Result<EvalResult, EvalError>,
)
    requires
        eval_outcome(first) == evaluate_spec(window, statements),
        eval_outcome(second) == evaluate_spec(window, statements),
    ensures
        eval_outcome(first) == eval_outcome(second),
{
}

} // verus!
