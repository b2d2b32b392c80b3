use felisp::data::FelispExp;
use felisp::data::Row;
use felisp::env::EnvArena;
use felisp::env::default_env;
use felisp::eval::parse_eval;

fn run(arena: &mut EnvArena, shown: &mut Vec<Row>, src: &str) -> Result<FelispExp, String> {
    match parse_eval(src.to_string(), arena, 0, 200, shown) {
        Ok(e) => Ok(e),
        Err(e) => Err(e.message().to_string()),
    }
}

fn eval_number(src: &str) -> i64 {
    let mut arena = default_env();
    let mut shown: Vec<Row> = Vec::new();
    match run(&mut arena, &mut shown, src).unwrap() {
        FelispExp::Number(n) => n,
        _ => panic!("expected a number result"),
    }
}

fn eval_bool(src: &str) -> bool {
    let mut arena = default_env();
    let mut shown: Vec<Row> = Vec::new();
    match run(&mut arena, &mut shown, src).unwrap() {
        FelispExp::Bool(b) => b,
        _ => panic!("expected a boolean result"),
    }
}

fn eval_err(src: &str) -> String {
    let mut arena = default_env();
    let mut shown: Vec<Row> = Vec::new();
    run(&mut arena, &mut shown, src).unwrap_err()
}

#[test]
fn test_sum_folds() {
    assert_eq!(eval_number("(+ 1 2)"), 3);
    assert_eq!(eval_number("(+ 1 2 3 4)"), 10);
    assert_eq!(eval_number("(+ 7)"), 7);
    assert_eq!(eval_number("(+ -4 9)"), 5);
}

#[test]
fn test_difference_folds() {
    assert_eq!(eval_number("(- 10 1 2)"), 7);
    assert_eq!(eval_number("(- 5)"), 5);
    assert_eq!(eval_number("(- 2 5)"), -3);
}

#[test]
fn test_arithmetic_on_non_number() {
    assert_eq!(eval_err("(+ 1 true)"), "expected a number");
    assert_eq!(eval_err("(- false)"), "expected a number");
}

#[test]
fn test_difference_needs_an_argument() {
    assert_eq!(eval_err("(-)"), "expected atleast one number");
}

#[test]
fn test_tonicity() {
    assert!(eval_bool("(< 1 2 3)"));
    assert!(!eval_bool("(< 1 3 2)"));
    assert!(eval_bool("(= 5)"));
    assert!(eval_bool("(>= 3 3 2)"));
    assert!(!eval_bool("(> 2 2)"));
    assert!(eval_bool("(<= 1 1 2)"));
    assert!(eval_bool("(= 4 4 4)"));
}

#[test]
fn test_tonicity_needs_an_argument() {
    assert_eq!(eval_err("(<)"), "expected at least one number");
}

#[test]
fn test_defn_binds_in_same_environment() {
    let mut arena = default_env();
    let mut shown: Vec<Row> = Vec::new();
    let defined = run(&mut arena, &mut shown, "(defn x 5)").unwrap();
    assert!(matches!(defined, FelispExp::Symbol(s) if s == "x"));
    let looked_up = run(&mut arena, &mut shown, "x").unwrap();
    assert!(matches!(looked_up, FelispExp::Number(5)));
}

#[test]
fn test_defn_shape_errors() {
    assert_eq!(eval_err("(defn)"), "expected first form");
    assert_eq!(eval_err("(defn 5 5)"), "expected first form to be a symbol");
    assert_eq!(eval_err("(defn x)"), "expected second form");
    assert_eq!(eval_err("(defn x 5 6)"), "depub fn can only have two forms ");
}

#[test]
fn test_if_branches() {
    assert_eq!(eval_number("(if true 1 2)"), 1);
    assert_eq!(eval_number("(if false 1 2)"), 2);
    assert_eq!(eval_number("(if (> 2 1) 10 20)"), 10);
}

#[test]
fn test_if_shape_errors() {
    assert_eq!(eval_err("(if)"), "expected test form");
    assert_eq!(eval_err("(if true)"), "expected form idx=1");
    assert_eq!(eval_err("(if false 1)"), "expected form idx=2");
    assert_eq!(eval_err("(if 5 1 2)"), "unexpected test form='5'");
}

#[test]
fn test_lambda_definition_and_application() {
    let mut arena = default_env();
    let mut shown: Vec<Row> = Vec::new();
    let lambda = run(&mut arena, &mut shown, "(fn (a b) (+ a b))").unwrap();
    assert!(matches!(lambda, FelispExp::Lambda(_)));
    run(&mut arena, &mut shown, "(defn lam (fn (a b) (+ a b)))").unwrap();
    let applied = run(&mut arena, &mut shown, "(lam 2 3)").unwrap();
    assert!(matches!(applied, FelispExp::Number(5)));
}

#[test]
fn test_lambda_arity_mismatch() {
    let mut arena = default_env();
    let mut shown: Vec<Row> = Vec::new();
    run(&mut arena, &mut shown, "(defn lam (fn (a b) (+ a b)))").unwrap();
    let err = run(&mut arena, &mut shown, "(lam 2)").unwrap_err();
    assert_eq!(err, "expected 2 arguments, got 1");
}

#[test]
fn test_lambda_shape_errors() {
    assert_eq!(eval_err("(fn)"), "expected args form");
    assert_eq!(eval_err("(fn (a))"), "expected second form");
    assert_eq!(eval_err("(fn (a) a b)"), "pub fn definition can only have two forms");
    let mut arena = default_env();
    let mut shown: Vec<Row> = Vec::new();
    run(&mut arena, &mut shown, "(defn lam (fn 5 5))").unwrap();
    assert_eq!(
        run(&mut arena, &mut shown, "(lam)").unwrap_err(),
        "expected args form to be a list",
    );
    run(&mut arena, &mut shown, "(defn lam2 (fn (a 5) a))").unwrap();
    assert_eq!(
        run(&mut arena, &mut shown, "(lam2 1 2)").unwrap_err(),
        "expected symbols in the argument list",
    );
}

#[test]
fn test_empty_list_is_an_error() {
    assert_eq!(eval_err("()"), "expected a non-empty list");
}

#[test]
fn test_unbound_symbol() {
    assert_eq!(eval_err("nosuchname"), "<< unexpected symbol k='nosuchname'");
}

#[test]
fn test_non_function_head() {
    assert_eq!(eval_err("(1 2 3)"), "first form must be a function");
}

#[test]
fn test_exit_is_a_cooperative_halt() {
    assert_eq!(eval_err("(exit)"), "exit requested");
}

#[test]
fn test_empty_sum_is_zero() {
    assert_eq!(eval_number("(+)"), 0);
}

#[test]
fn test_lambda_parameter_shadows_global() {
    let mut arena = default_env();
    let mut shown: Vec<Row> = Vec::new();
    run(&mut arena, &mut shown, "(defn x 1)").unwrap();
    run(&mut arena, &mut shown, "(defn f (fn (x) (+ x 1)))").unwrap();
    let applied = run(&mut arena, &mut shown, "(f 41)").unwrap();
    assert!(matches!(applied, FelispExp::Number(42)));
    // the binding in the defining scope is untouched
    let global = run(&mut arena, &mut shown, "x").unwrap();
    assert!(matches!(global, FelispExp::Number(1)));
}

#[test]
fn test_lambda_body_sees_caller_bindings() {
    // a lambda does not capture its defining environment: free names in its
    // body resolve through the caller's scope chain
    let mut arena = default_env();
    let mut shown: Vec<Row> = Vec::new();
    run(&mut arena, &mut shown, "(defn g (fn () y))").unwrap();
    assert_eq!(
        run(&mut arena, &mut shown, "(g)").unwrap_err(),
        "<< unexpected symbol k='y'",
    );
    run(&mut arena, &mut shown, "(defn y 7)").unwrap();
    let r = run(&mut arena, &mut shown, "(g)").unwrap();
    assert!(matches!(r, FelispExp::Number(7)));
}

#[test]
fn test_runaway_recursion_is_reported() {
    let mut arena = default_env();
    let mut shown: Vec<Row> = Vec::new();
    run(&mut arena, &mut shown, "(defn loopy (fn (a) (loopy a)))").unwrap();
    let err = run(&mut arena, &mut shown, "(loopy 1)").unwrap_err();
    assert_eq!(err, "recursion depth exceeded");
}
