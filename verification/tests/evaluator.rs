use jinchan_core::tdx::evaluator::{
    find_func, BuiltinVar, EvalError, EvalResult, Evaluator, Func, Series, Source,
};
use jinchan_core::tdx::parser::{BinOp, Parser, UnOp};
use jinchan_core::tdx::series::{
    calc_barslast, calc_count, calc_cross, calc_every, calc_exist, calc_if, calc_ref, window_start,
};
use jinchan_core::tdx::tokenizer::Tokenizer;
use jinchan_core::tdx::{evaluate_formula, FormulaError};
use std::collections::HashMap;

struct Bar {
    open: f64,
    close: f64,
    high: f64,
    low: f64,
    volume: f64,
}

struct Computed {
    outputs: HashMap<String, Vec<f64>>,
    signals: Vec<(String, bool, f64)>,
}

fn make_bars(closes: &[f64]) -> Vec<Bar> {
    closes
        .iter()
        .map(|&c| Bar { open: c - 0.5, close: c, high: c + 1.0, low: c - 1.0, volume: 10000.0 })
        .collect()
}

fn flag(b: bool) -> f64 {
    if b {
        1.0
    } else {
        0.0
    }
}

fn truth(series: &[f64]) -> Vec<bool> {
    series.iter().map(|v| *v > 0.5).collect()
}

fn flags(bits: Vec<bool>) -> Vec<f64> {
    bits.into_iter().map(flag).collect()
}

fn counts(values: Vec<usize>) -> Vec<f64> {
    values.into_iter().map(|n| n as f64).collect()
}

fn last(series: &[f64]) -> f64 {
    *series.last().unwrap_or(&0.0)
}

fn windowed(data: &[f64], period: usize, f: fn(&[f64]) -> f64) -> Vec<f64> {
    let mut result = vec![0.0; data.len()];
    for i in 0..data.len() {
        if let Some(start) = window_start(i, period) {
            result[i] = f(&data[start..=i]);
        }
    }
    result
}

fn mean(w: &[f64]) -> f64 {
    w.iter().sum::<f64>() / w.len() as f64
}

fn lowest(w: &[f64]) -> f64 {
    w.iter().cloned().fold(f64::MAX, f64::min)
}

fn highest(w: &[f64]) -> f64 {
    w.iter().cloned().fold(f64::MIN, f64::max)
}

fn avedev(w: &[f64]) -> f64 {
    let m = mean(w);
    w.iter().map(|v| (v - m).abs()).sum::<f64>() / w.len() as f64
}

fn std_dev(w: &[f64]) -> f64 {
    let m = mean(w);
    (w.iter().map(|v| (v - m).powi(2)).sum::<f64>() / w.len() as f64).sqrt()
}

fn ema(data: &[f64], period: usize) -> Vec<f64> {
    let mut result = vec![0.0; data.len()];
    if data.is_empty() || period == 0 {
        return result;
    }
    let k = 2.0 / (period as f64 + 1.0);
    result[0] = data[0];
    for i in 1..data.len() {
        result[i] = data[i] * k + result[i - 1] * (1.0 - k);
    }
    result
}

fn sma(data: &[f64], period: usize, weight: f64) -> Vec<f64> {
    let mut result = vec![0.0; data.len()];
    if data.is_empty() || period == 0 {
        return result;
    }
    result[0] = data[0];
    let n = period as f64;
    for i in 1..data.len() {
        result[i] = (data[i] * weight + result[i - 1] * (n - weight)) / n;
    }
    result
}

fn slope(data: &[f64], period: usize) -> Vec<f64> {
    let mut result = vec![0.0; data.len()];
    if period < 2 {
        return result;
    }
    for i in 0..data.len() {
        if i + 1 < period {
            continue;
        }
        let start = i + 1 - period;
        let n = period as f64;
        let (mut sx, mut sy, mut sxy, mut sx2) = (0.0, 0.0, 0.0, 0.0);
        for (j, idx) in (start..=i).enumerate() {
            let x = j as f64;
            let y = data[idx];
            sx += x;
            sy += y;
            sxy += x * y;
            sx2 += x * x;
        }
        let denom = n * sx2 - sx * sx;
        if denom.abs() > f64::EPSILON {
            result[i] = (n * sxy - sx * sy) / denom;
        }
    }
    result
}

fn binary(op: BinOp, left: &[f64], right: &[f64], len: usize) -> Vec<f64> {
    (0..len)
        .map(|i| {
            let l = left.get(i).copied().unwrap_or(0.0);
            let r = right.get(i).copied().unwrap_or(0.0);
            match op {
                BinOp::Add => l + r,
                BinOp::Sub => l - r,
                BinOp::Mul => l * r,
                BinOp::Div => {
                    if r.abs() < f64::EPSILON {
                        0.0
                    } else {
                        l / r
                    }
                }
                BinOp::Gt => flag(l > r),
                BinOp::Lt => flag(l < r),
                BinOp::Ge => flag(l >= r),
                BinOp::Le => flag(l <= r),
                BinOp::Eq => flag((l - r).abs() < f64::EPSILON),
                BinOp::And => flag(l > 0.5 && r > 0.5),
                BinOp::Or => flag(l > 0.5 || r > 0.5),
            }
        })
        .collect()
}

fn call(func: Func, a: &[Vec<f64>]) -> Vec<f64> {
    let period = |i: usize| last(&a[i]) as usize;
    match func {
        Func::Ma => windowed(&a[0], period(1), mean),
        Func::Ema => ema(&a[0], period(1)),
        Func::Sma => sma(&a[0], period(1), last(&a[2])),
        Func::Ref => calc_ref(&a[0], period(1)),
        Func::Llv => windowed(&a[0], period(1), lowest),
        Func::Hhv => windowed(&a[0], period(1), highest),
        Func::If => calc_if(&truth(&a[0]), &a[1], &a[2]),
        Func::Max => a[0].iter().zip(a[1].iter()).map(|(x, y)| x.max(*y)).collect(),
        Func::Min => a[0].iter().zip(a[1].iter()).map(|(x, y)| x.min(*y)).collect(),
        Func::Abs => a[0].iter().map(|v| v.abs()).collect(),
        Func::Cross => {
            let above: Vec<bool> = a[0].iter().zip(a[1].iter()).map(|(x, y)| x > y).collect();
            let not_above: Vec<bool> = a[0].iter().zip(a[1].iter()).map(|(x, y)| x <= y).collect();
            flags(calc_cross(&above, &not_above))
        }
        Func::Count => counts(calc_count(&truth(&a[0]), period(1))),
        Func::Every => flags(calc_every(&truth(&a[0]), period(1))),
        Func::Barslast => counts(calc_barslast(&truth(&a[0]))),
        Func::Avedev => windowed(&a[0], period(1), avedev),
        Func::Std => windowed(&a[0], period(1), std_dev),
        Func::Slope => slope(&a[0], period(1)),
        Func::Exist => flags(calc_exist(&truth(&a[0]), period(1))),
        Func::Intpart => a[0].iter().map(|v| v.trunc()).collect(),
    }
}

fn compute(series: &Series, bars: &[Bar], bound: &[Vec<f64>]) -> Vec<f64> {
    let len = bars.len();
    match series {
        Series::Number(text) => vec![text.parse::<f64>().unwrap(); len],
        Series::Text(_) => vec![0.0; len],
        Series::Variable(Source::Binding(i)) => bound[*i].clone(),
        Series::Variable(Source::Builtin(var)) => bars
            .iter()
            .map(|b| match var {
                BuiltinVar::Close => b.close,
                BuiltinVar::Open => b.open,
                BuiltinVar::High => b.high,
                BuiltinVar::Low => b.low,
                BuiltinVar::Volume => b.volume,
            })
            .collect(),
        Series::Binary { op, left, right } => {
            binary(*op, &compute(left, bars, bound), &compute(right, bars, bound), len)
        }
        Series::Unary { op, operand } => compute(operand, bars, bound)
            .iter()
            .map(|v| match op {
                UnOp::Neg => -v,
                UnOp::Not => flag(*v <= 0.5),
            })
            .collect(),
        Series::Call { func, args } => {
            let values: Vec<Vec<f64>> = args.iter().map(|a| compute(a, bars, bound)).collect();
            call(*func, &values)
        }
    }
}

fn run(plan: &EvalResult, bars: &[Bar]) -> Computed {
    let mut bound: Vec<Vec<f64>> = Vec::new();
    for series in &plan.bindings {
        let values = compute(series, bars, &bound);
        bound.push(values);
    }
    let mut outputs = HashMap::new();
    for output in &plan.outputs {
        outputs.insert(output.name.clone(), bound[output.binding].clone());
    }
    let signals = plan
        .signals
        .iter()
        .map(|s| {
            let cond = compute(&s.condition, bars, &bound);
            let price = compute(&s.price, bars, &bound);
            (s.text.clone(), last(&cond) > 0.5, last(&price))
        })
        .collect();
    Computed { outputs, signals }
}

fn plan_of(source: &str, window: usize) -> EvalResult {
    let mut t = Tokenizer::new(source);
    let tokens = t.tokenize().unwrap();
    let mut p = Parser::new(tokens);
    let stmts = p.parse().unwrap();
    let e = Evaluator::new(window);
    e.evaluate(&stmts).unwrap()
}

fn eval_source(source: &str, bars: &[Bar]) -> Computed {
    run(&plan_of(source, bars.len()), bars)
}

fn eval_error(source: &str, window: usize) -> EvalError {
    match evaluate_formula(source, window) {
        Err(FormulaError::Eval(e)) => e,
        other => panic!("expected an evaluation error, got {:?}", other),
    }
}

fn close_to(a: f64, b: f64) -> bool {
    (a - b).abs() < 1e-9
}

#[test]
fn test_ma() {
    let bars = make_bars(&[10.0, 20.0, 30.0, 40.0, 50.0]);
    let result = eval_source("MA5 : MA(CLOSE, 3);", &bars);
    let ma5 = &result.outputs["MA5"];
    assert!((ma5[4] - 40.0).abs() < 0.01);
}

#[test]
fn test_ema() {
    let bars = make_bars(&[10.0, 20.0, 30.0, 40.0, 50.0]);
    let result = eval_source("E : EMA(CLOSE, 3);", &bars);
    let e = &result.outputs["E"];
    assert!((e[0] - 10.0).abs() < 0.01);
    assert!((e[1] - 15.0).abs() < 0.01);
    assert!((e[2] - 22.5).abs() < 0.01);
}

#[test]
fn test_drawtext_signal() {
    let bars = make_bars(&[10.0, 20.0, 30.0, 40.0, 50.0]);
    let result = eval_source("DRAWTEXT(C > REF(C, 1), LOW, '涨了');", &bars);
    assert_eq!(result.signals.len(), 1);
    assert!(result.signals[0].1);
    assert_eq!(result.signals[0].0, "涨了");
    assert_eq!(result.signals[0].2, 49.0);
}

#[test]
fn test_drawtext_not_triggered() {
    let bars = make_bars(&[50.0, 40.0, 30.0, 20.0, 10.0]);
    let result = eval_source("DRAWTEXT(C > REF(C, 1), LOW, '涨了');", &bars);
    assert_eq!(result.signals.len(), 1);
    assert!(!result.signals[0].1);
}

#[test]
fn test_cross() {
    let bars = make_bars(&[10.0, 20.0, 15.0, 25.0, 30.0]);
    let result = eval_source(
        "MA3 := MA(C, 3);\nMA5 := MA(C, 5);\nGOLD := CROSS(MA3, MA5);\nGOLD_OUT : GOLD;",
        &bars,
    );
    let gold = &result.outputs["GOLD_OUT"];
    assert_eq!(gold.len(), 5);
}

#[test]
fn test_full_bbi_formula() {
    let closes: Vec<f64> = (1..=30).map(|i| 10.0 + i as f64 * 0.5).collect();
    let bars = make_bars(&closes);
    let source = r#"
            MA3 := MA(CLOSE, 3);
            MA6 := MA(CLOSE, 6);
            MA12 := MA(CLOSE, 12);
            MA24 := MA(CLOSE, 24);
            BBI : (MA3 + MA6 + MA12 + MA24) / 4;
            DRAWTEXT(CLOSE > BBI AND REF(CLOSE, 1) < REF(BBI, 1), LOW, '金叉买入');
        "#;
    let result = eval_source(source, &bars);
    assert!(result.outputs.contains_key("BBI"));
    assert_eq!(result.signals.len(), 1);
}

#[test]
fn test_sma() {
    let bars = make_bars(&[10.0, 20.0, 30.0, 40.0, 50.0]);
    let result = eval_source("S : SMA(CLOSE, 3, 1);", &bars);
    let s = &result.outputs["S"];
    assert!((s[0] - 10.0).abs() < 0.01);
    assert!((s[1] - 13.333).abs() < 0.01);
}

#[test]
fn ma_is_the_mean_of_the_trailing_window() {
    let closes = [3.0, 9.0, 4.0, 8.0, 1.0, 7.0];
    let result = eval_source("M : MA(C, 4);", &make_bars(&closes));
    let m = &result.outputs["M"];
    for i in 0..closes.len() {
        let start = if i + 1 >= 4 { i + 1 - 4 } else { 0 };
        let expected = closes[start..=i].iter().sum::<f64>() / (i - start + 1) as f64;
        assert!(close_to(m[i], expected), "index {}", i);
    }
    assert!(close_to(m[0], 3.0));
    assert!(close_to(m[1], 6.0));
    assert!(close_to(m[5], 5.0));
}

#[test]
fn every_function_returns_a_full_series() {
    let bars = make_bars(&[10.0, 12.0, 11.0, 15.0, 14.0, 18.0, 17.0]);
    let source = "A : MA(C, 3); B : EMA(C, 3); D : SMA(C, 3, 1); E : REF(C, 2); F : LLV(C, 3);\
        G : HHV(C, 3); I : IF(C > 12, C, O); J : MAX(C, O); K : MIN(C, O); M : ABS(C - 15);\
        N : CROSS(C, MA(C, 3)); P : COUNT(C > 12, 3); Q : EVERY(C > 12, 2); R : BARSLAST(C > 16);\
        S : AVEDEV(C, 3); T : STD(C, 3); U : SLOPE(C, 3); W : EXIST(C > 16, 2); X : INTPART(C / 4);\
        Y : 5; Z : 'text'; AA : -C; AB : NOT C;";
    let result = eval_source(source, &bars);
    assert_eq!(result.outputs.len(), 23);
    for (name, series) in &result.outputs {
        assert_eq!(series.len(), bars.len(), "{}", name);
    }
}

#[test]
fn cross_is_zero_on_the_first_bar() {
    for closes in [[1.0, 2.0, 3.0], [3.0, 2.0, 1.0], [5.0, 5.0, 5.0]] {
        let result = eval_source("X : CROSS(C, O); Y : CROSS(O, C); Z : CROSS(C, 0);", &make_bars(&closes));
        assert_eq!(result.outputs["X"][0], 0.0);
        assert_eq!(result.outputs["Y"][0], 0.0);
        assert_eq!(result.outputs["Z"][0], 0.0);
    }
    let result = eval_source("X : CROSS(C, 15);", &make_bars(&[10.0, 20.0, 12.0, 16.0, 17.0]));
    assert_eq!(result.outputs["X"], vec![0.0, 1.0, 0.0, 1.0, 0.0]);
}

#[test]
fn built_in_functions_by_value() {
    let bars = make_bars(&[10.0, 20.0, 15.0, 25.0, 30.0]);
    let r = eval_source(
        "A : REF(C, 2); B : LLV(C, 2); D : HHV(C, 3); E : COUNT(C > 12, 3); F : EVERY(C > 12, 2);\
         G : EXIST(C > 28, 2); I : BARSLAST(C > 18); J : IF(C > 18, 1, 2); K : INTPART(C / 4);\
         M : MAX(C, 18); N : MIN(C, 18); P : ABS(C - 20); Q : SLOPE(C, 2); R : AVEDEV(C, 2); S : STD(C, 2);",
        &bars,
    );
    assert_eq!(r.outputs["A"], vec![10.0, 10.0, 10.0, 20.0, 15.0]);
    assert_eq!(r.outputs["B"], vec![10.0, 10.0, 15.0, 15.0, 25.0]);
    assert_eq!(r.outputs["D"], vec![10.0, 20.0, 20.0, 25.0, 30.0]);
    assert_eq!(r.outputs["E"], vec![0.0, 1.0, 2.0, 3.0, 3.0]);
    assert_eq!(r.outputs["F"], vec![0.0, 0.0, 1.0, 1.0, 1.0]);
    assert_eq!(r.outputs["G"], vec![0.0, 0.0, 0.0, 0.0, 1.0]);
    assert_eq!(r.outputs["I"], vec![5.0, 0.0, 1.0, 0.0, 0.0]);
    assert_eq!(r.outputs["J"], vec![2.0, 1.0, 2.0, 1.0, 1.0]);
    assert_eq!(r.outputs["K"], vec![2.0, 5.0, 3.0, 6.0, 7.0]);
    assert_eq!(r.outputs["M"], vec![18.0, 20.0, 18.0, 25.0, 30.0]);
    assert_eq!(r.outputs["N"], vec![10.0, 18.0, 15.0, 18.0, 18.0]);
    assert_eq!(r.outputs["P"], vec![10.0, 0.0, 5.0, 5.0, 10.0]);
    assert_eq!(r.outputs["Q"], vec![0.0, 10.0, -5.0, 10.0, 5.0]);
    assert_eq!(r.outputs["R"], vec![0.0, 5.0, 2.5, 5.0, 2.5]);
    assert_eq!(r.outputs["S"], vec![0.0, 5.0, 2.5, 5.0, 2.5]);
}

#[test]
fn operators_by_value() {
    let bars = make_bars(&[10.0, 20.0]);
    let r = eval_source(
        "A : C + 1; B : C - O; D : C * 2; E : C / 0; F : C / 4; G : C >= 20; I : C = 10;\
         J : C > 5 AND C < 15; K : C > 15 OR C < 5; M : NOT (C > 15); N : -C; P : H; Q : L; R : V; S : VOL; T : VOLUME;",
        &bars,
    );
    assert_eq!(r.outputs["A"], vec![11.0, 21.0]);
    assert_eq!(r.outputs["B"], vec![0.5, 0.5]);
    assert_eq!(r.outputs["D"], vec![20.0, 40.0]);
    assert_eq!(r.outputs["E"], vec![0.0, 0.0]);
    assert_eq!(r.outputs["F"], vec![2.5, 5.0]);
    assert_eq!(r.outputs["G"], vec![0.0, 1.0]);
    assert_eq!(r.outputs["I"], vec![1.0, 0.0]);
    assert_eq!(r.outputs["J"], vec![1.0, 0.0]);
    assert_eq!(r.outputs["K"], vec![0.0, 1.0]);
    assert_eq!(r.outputs["M"], vec![1.0, 0.0]);
    assert_eq!(r.outputs["N"], vec![-10.0, -20.0]);
    assert_eq!(r.outputs["P"], vec![11.0, 21.0]);
    assert_eq!(r.outputs["Q"], vec![9.0, 19.0]);
    assert_eq!(r.outputs["R"], vec![10000.0, 10000.0]);
    assert_eq!(r.outputs["S"], vec![10000.0, 10000.0]);
    assert_eq!(r.outputs["T"], vec![10000.0, 10000.0]);
}

#[test]
fn outputs_hold_every_output_name() {
    let plan = plan_of("A := C; B : A; D : B + 1; DRAWTEXT(D > 0, D, 's'); E : D;", 3);
    let names: Vec<&str> = plan.outputs.iter().map(|o| o.name.as_str()).collect();
    assert_eq!(names, vec!["B", "D", "E"]);
    assert_eq!(plan.bindings.len(), 4);
    assert_eq!(plan.signals.len(), 1);
    let bindings: Vec<usize> = plan.outputs.iter().map(|o| o.binding).collect();
    assert_eq!(bindings, vec![1, 2, 3]);
}

#[test]
fn signals_keep_statement_order() {
    let plan = plan_of("DRAWTEXT(C > 1, L, 'one'); X := 1; DRAWTEXT(C > 2, H, 'two');", 3);
    let texts: Vec<&str> = plan.signals.iter().map(|s| s.text.as_str()).collect();
    assert_eq!(texts, vec!["one", "two"]);
}

#[test]
fn later_binding_hides_earlier() {
    let bars = make_bars(&[10.0, 20.0]);
    let r = eval_source("X := 1; X := 2; Y : X; CLOSE := 7; Z : close; W : C;", &bars);
    assert_eq!(r.outputs["Y"], vec![2.0, 2.0]);
    assert_eq!(r.outputs["Z"], vec![7.0, 7.0]);
    assert_eq!(r.outputs["W"], vec![10.0, 20.0]);
    let r = eval_source("A : 1; A : 2;", &bars);
    assert_eq!(r.outputs["A"], vec![2.0, 2.0]);
}

#[test]
fn names_are_bound_and_looked_up_in_any_case() {
    let bars = make_bars(&[10.0, 20.0, 30.0, 40.0, 50.0]);
    let r = eval_source("x := 1; y : x;", &bars);
    assert_eq!(r.outputs["y"], vec![1.0; 5]);
    assert_eq!(r.outputs.len(), 1);
    let r = eval_source("ma3 := MA(close, 3); A : MA3; B : Ma3 + ma3; D : c + Vol;", &bars);
    assert_eq!(r.outputs["A"], vec![10.0, 15.0, 20.0, 30.0, 40.0]);
    assert_eq!(r.outputs["B"], vec![20.0, 30.0, 40.0, 60.0, 80.0]);
    assert_eq!(r.outputs["D"][0], 10010.0);
    let r = eval_source("X := 1; Y : x; x := 2; Z : X;", &bars);
    assert_eq!(r.outputs["Y"], vec![1.0; 5]);
    assert_eq!(r.outputs["Z"], vec![2.0; 5]);
    let r = eval_source("close := 7; Z : CLOSE; W : C;", &bars);
    assert_eq!(r.outputs["Z"], vec![7.0; 5]);
    assert_eq!(r.outputs["W"], vec![10.0, 20.0, 30.0, 40.0, 50.0]);
    let r = eval_source("收盘 := C; 输出 : 收盘;", &bars);
    assert_eq!(r.outputs["输出"], vec![10.0, 20.0, 30.0, 40.0, 50.0]);
}

#[test]
fn outputs_keep_their_names_as_written() {
    let plan = plan_of("abc : C; Abc : O; ABC : abc;", 2);
    let names: Vec<&str> = plan.outputs.iter().map(|o| o.name.as_str()).collect();
    assert_eq!(names, vec!["abc", "Abc", "ABC"]);
    let r = eval_source("abc : C; Abc : O; ABC : abc;", &make_bars(&[10.0, 20.0]));
    assert_eq!(r.outputs["abc"], vec![10.0, 20.0]);
    assert_eq!(r.outputs["Abc"], vec![9.5, 19.5]);
    assert_eq!(r.outputs["ABC"], vec![9.5, 19.5]);
}

#[test]
fn evaluation_errors() {
    assert_eq!(eval_error("A : C;", 0), EvalError::EmptyWindow);
    assert_eq!(eval_error("A : FOO(C);", 5), EvalError::UnknownFunction("FOO".into()));
    assert_eq!(eval_error("A : foo(C);", 5), EvalError::UnknownFunction("foo".into()));
    assert_eq!(
        eval_error("A : ma(C);", 5),
        EvalError::ArityError { name: "MA".into(), expected: 2, actual: 1 }
    );
    assert_eq!(
        eval_error("A : IF(C, 1);", 5),
        EvalError::ArityError { name: "IF".into(), expected: 3, actual: 2 }
    );
    assert_eq!(eval_error("A : B;", 5), EvalError::UnboundVariable("B".into()));
    assert_eq!(eval_error("A : A;", 5), EvalError::UnboundVariable("A".into()));
    assert_eq!(eval_error("y : x; x := 1;", 5), EvalError::UnboundVariable("x".into()));
}

#[test]
fn first_error_in_evaluation_order() {
    assert_eq!(eval_error("A : X + FOO(1);", 5), EvalError::UnboundVariable("X".into()));
    assert_eq!(eval_error("A : FOO(X);", 5), EvalError::UnknownFunction("FOO".into()));
    assert_eq!(
        eval_error("A : MA(X);", 5),
        EvalError::ArityError { name: "MA".into(), expected: 2, actual: 1 }
    );
    assert_eq!(eval_error("A : MA(X, Y);", 5), EvalError::UnboundVariable("X".into()));
    assert_eq!(eval_error("A : MA(C, Y);", 5), EvalError::UnboundVariable("Y".into()));
    assert_eq!(eval_error("DRAWTEXT(P, Q, 't');", 5), EvalError::UnboundVariable("P".into()));
    assert_eq!(eval_error("A : P; B : FOO();", 5), EvalError::UnboundVariable("P".into()));
}

#[test]
fn evaluation_error_messages() {
    assert_eq!(EvalError::EmptyWindow.message(), "K线数据为空");
    assert_eq!(EvalError::UnknownFunction("FOO".into()).message(), "不支持的函数: FOO");
    assert_eq!(EvalError::UnboundVariable("x".into()).message(), "未定义的变量: x");
    assert_eq!(
        EvalError::ArityError { name: "SMA".into(), expected: 3, actual: 12 }.message(),
        "函数 SMA 需要 3 个参数，实际传入 12 个"
    );
}

#[test]
fn evaluation_is_deterministic() {
    let source = "A := MA(C, 3); B : A * 2; DRAWTEXT(CROSS(C, A), L, 'up');";
    let bars = make_bars(&[10.0, 12.0, 11.0, 15.0, 14.0]);
    let first = eval_source(source, &bars);
    let second = eval_source(source, &bars);
    assert_eq!(first.outputs, second.outputs);
    assert_eq!(first.signals, second.signals);
    assert_eq!(format!("{:?}", plan_of(source, 5)), format!("{:?}", plan_of(source, 5)));
    assert_eq!(
        format!("{:?}", evaluate_formula("A : B;", 5)),
        format!("{:?}", evaluate_formula("A : B;", 5))
    );
}

#[test]
fn functions_by_name_and_arity() {
    let table = [
        ("MA", Func::Ma, 2),
        ("EMA", Func::Ema, 2),
        ("SMA", Func::Sma, 3),
        ("REF", Func::Ref, 2),
        ("LLV", Func::Llv, 2),
        ("HHV", Func::Hhv, 2),
        ("IF", Func::If, 3),
        ("MAX", Func::Max, 2),
        ("MIN", Func::Min, 2),
        ("ABS", Func::Abs, 1),
        ("CROSS", Func::Cross, 2),
        ("COUNT", Func::Count, 2),
        ("EVERY", Func::Every, 2),
        ("BARSLAST", Func::Barslast, 1),
        ("AVEDEV", Func::Avedev, 2),
        ("STD", Func::Std, 2),
        ("SLOPE", Func::Slope, 2),
        ("EXIST", Func::Exist, 2),
        ("INTPART", Func::Intpart, 1),
    ];
    for (name, func, arity) in table {
        assert_eq!(find_func(name), Some(func));
        assert_eq!(func.arity(), arity);
    }
    assert_eq!(find_func("ma"), None);
    assert_eq!(find_func("SUM"), None);
}

#[test]
fn series_kernels() {
    assert_eq!(window_start(0, 3), Some(0));
    assert_eq!(window_start(1, 3), Some(0));
    assert_eq!(window_start(2, 3), Some(0));
    assert_eq!(window_start(3, 3), Some(1));
    assert_eq!(window_start(9, 1), Some(9));
    assert_eq!(window_start(9, 0), None);
    assert_eq!(window_start(usize::MAX, usize::MAX), Some(1));
    assert_eq!(calc_ref(&vec!['a', 'b', 'c', 'd'], 2), vec!['a', 'a', 'a', 'b']);
    assert_eq!(calc_ref(&vec![1, 2, 3], 0), vec![1, 2, 3]);
    assert_eq!(calc_ref(&vec![1, 2, 3], 7), vec![1, 1, 1]);
    assert_eq!(calc_ref(&Vec::<u8>::new(), 1), Vec::<u8>::new());
    assert_eq!(calc_if(&vec![true, false, true], &vec![1, 2, 3], &vec![7, 8]), vec![1, 8]);
    let t = true;
    let f = false;
    assert_eq!(calc_cross(&vec![t, t, f, t], &vec![f, f, t, f]), vec![f, f, f, t]);
    assert_eq!(calc_cross(&vec![t], &vec![t]), vec![f]);
    assert_eq!(calc_count(&vec![t, t, f, t, t], 3), vec![1, 2, 2, 2, 2]);
    assert_eq!(calc_count(&vec![t, t], 0), vec![0, 0]);
    assert_eq!(calc_every(&vec![t, t, f, t, t], 2), vec![f, t, f, f, t]);
    assert_eq!(calc_every(&vec![f, t], 0), vec![t, t]);
    assert_eq!(calc_exist(&vec![f, t, f, f, f], 2), vec![f, t, t, f, f]);
    assert_eq!(calc_barslast(&vec![f, f, t, f, f, t]), vec![6, 6, 0, 1, 2, 0]);
}
