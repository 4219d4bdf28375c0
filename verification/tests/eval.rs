use yu::ast::{Atom, Expr, List, Native, Operator};
use yu::env::Frame;
use yu::eval::{eval, EvalError, Evaluator, DEFAULT_FUEL};

fn num(x: f64) -> Expr {
    Expr::Atom(Atom::Number(x.to_bits()))
}

fn sym(s: &str) -> Expr {
    Expr::Atom(Atom::Symbol(String::from(s)))
}

fn list(items: Vec<Expr>) -> Expr {
    let mut l = List::Nil;
    for e in items.into_iter().rev() {
        l = List::cons(e, l);
    }
    Expr::List(l)
}

fn call2(op: &str, a: Expr, b: Expr) -> Expr {
    list(vec![sym(op), a, b])
}

#[test]
fn arithmetic_add() {
    assert_eq!(eval(call2("+", num(1.0), num(2.0))), Ok(num(3.0)));
}

#[test]
fn arithmetic_mul() {
    assert_eq!(eval(call2("*", num(3.0), num(4.0))), Ok(num(12.0)));
}

#[test]
fn arithmetic_div() {
    assert_eq!(eval(call2("/", num(4.0), num(2.0))), Ok(num(2.0)));
}

#[test]
fn arithmetic_sub() {
    assert_eq!(eval(call2("-", num(5.0), num(3.0))), Ok(num(2.0)));
}

#[test]
fn arithmetic_fractional() {
    assert_eq!(eval(call2("/", num(1.0), num(8.0))), Ok(num(0.125)));
}

#[test]
fn division_by_zero_gives_infinity() {
    assert_eq!(eval(call2("/", num(1.0), num(0.0))), Ok(num(f64::INFINITY)));
}

#[test]
fn operator_one_operand_returns_zero() {
    assert_eq!(eval(list(vec![sym("+"), num(1.0)])), Ok(num(0.0)));
}

#[test]
fn operator_no_operand_returns_zero() {
    assert_eq!(eval(list(vec![sym("*")])), Ok(num(0.0)));
}

#[test]
fn operator_three_operands_returns_zero() {
    assert_eq!(
        eval(list(vec![sym("-"), num(1.0), num(2.0), num(3.0)])),
        Ok(num(0.0))
    );
}

#[test]
fn operator_non_number_operand() {
    let quoted = list(vec![sym("quote"), sym("a")]);
    assert_eq!(
        eval(list(vec![sym("+"), quoted, num(1.0)])),
        Err(EvalError::InvalidType)
    );
}

#[test]
fn quote_list_unevaluated() {
    let three = list(vec![num(1.0), num(2.0), num(3.0)]);
    assert_eq!(eval(list(vec![sym("quote"), three.dup()])), Ok(three));
}

#[test]
fn quote_nested_with_undefined_symbols() {
    let inner = list(vec![sym("foo"), list(vec![sym("bar"), num(1.0)])]);
    assert_eq!(eval(list(vec![sym("quote"), inner.dup()])), Ok(inner));
}

#[test]
fn quote_number() {
    assert_eq!(eval(list(vec![sym("quote"), num(7.0)])), Ok(num(7.0)));
}

#[test]
fn quote_wrong_arity() {
    assert_eq!(
        eval(list(vec![sym("quote"), num(1.0), num(2.0)])),
        Err(EvalError::WrongArity)
    );
}

#[test]
fn empty_list_evaluates_to_itself() {
    assert_eq!(eval(Expr::List(List::Nil)), Ok(Expr::List(List::Nil)));
}

#[test]
fn number_evaluates_to_itself() {
    assert_eq!(eval(num(5.5)), Ok(num(5.5)));
}

#[test]
fn undefined_symbol() {
    assert_eq!(
        eval(sym("nope")),
        Err(EvalError::UndefinedSymbol(String::from("nope")))
    );
}

#[test]
fn reserved_symbol_evaluates_to_native() {
    assert_eq!(eval(sym("begin")), Ok(Expr::Atom(Atom::Native(Native::Begin))));
    assert_eq!(
        eval(sym("+")),
        Ok(Expr::Atom(Atom::Native(Native::Operator(Operator::Add))))
    );
}

#[test]
fn not_callable() {
    assert_eq!(
        eval(list(vec![num(1.0), num(2.0)])),
        Err(EvalError::NotCallable)
    );
}

#[test]
fn begin_returns_last() {
    assert_eq!(
        eval(list(vec![sym("begin"), num(1.0), num(2.0), num(3.0)])),
        Ok(num(3.0))
    );
}

#[test]
fn begin_no_operands_wrong_arity() {
    assert_eq!(eval(list(vec![sym("begin")])), Err(EvalError::WrongArity));
}

#[test]
fn define_returns_value_and_binds() {
    let mut ev = Evaluator::new();
    assert_eq!(
        ev.eval_expr(list(vec![sym("define"), sym("a"), num(7.0)]), DEFAULT_FUEL),
        Ok(num(7.0))
    );
    assert_eq!(ev.eval_expr(sym("a"), DEFAULT_FUEL), Ok(num(7.0)));
}

#[test]
fn define_first_operand_must_be_symbol() {
    assert_eq!(
        eval(list(vec![sym("define"), num(1.0), num(2.0)])),
        Err(EvalError::InvalidType)
    );
}

#[test]
fn define_wrong_arity() {
    assert_eq!(
        eval(list(vec![sym("define"), sym("a")])),
        Err(EvalError::WrongArity)
    );
}

#[test]
fn function_parameters_must_be_symbols() {
    let params = list(vec![sym("x"), num(1.0)]);
    assert_eq!(
        eval(list(vec![sym("function"), params, sym("x")])),
        Err(EvalError::InvalidType)
    );
}

#[test]
fn function_parameter_list_must_be_list() {
    assert_eq!(
        eval(list(vec![sym("function"), sym("x"), sym("x")])),
        Err(EvalError::InvalidType)
    );
}

#[test]
fn end_to_end_increment() {
    let mut ev = Evaluator::new();
    let inc = list(vec![
        sym("function"),
        list(vec![sym("x")]),
        call2("+", sym("x"), num(1.0)),
    ]);
    ev.eval_expr(list(vec![sym("define"), sym("inc"), inc]), DEFAULT_FUEL)
        .unwrap();
    assert_eq!(
        ev.eval_expr(list(vec![sym("inc"), num(41.0)]), DEFAULT_FUEL),
        Ok(num(42.0))
    );
}

#[test]
fn arity_mismatch_one_and_three_arguments() {
    let mut ev = Evaluator::new();
    let f = list(vec![
        sym("function"),
        list(vec![sym("a"), sym("b")]),
        sym("a"),
    ]);
    ev.eval_expr(list(vec![sym("define"), sym("f"), f]), DEFAULT_FUEL)
        .unwrap();
    assert_eq!(
        ev.eval_expr(list(vec![sym("f"), num(1.0)]), DEFAULT_FUEL),
        Err(EvalError::WrongArity)
    );
    assert_eq!(
        ev.eval_expr(
            list(vec![sym("f"), num(1.0), num(2.0), num(3.0)]),
            DEFAULT_FUEL
        ),
        Err(EvalError::WrongArity)
    );
}

#[test]
fn scope_isolation_child_frame_discarded() {
    let mut ev = Evaluator::new();
    let body = list(vec![
        sym("begin"),
        list(vec![sym("define"), sym("y"), num(99.0)]),
        call2("+", sym("x"), sym("y")),
    ]);
    let f = list(vec![sym("function"), list(vec![sym("x")]), body]);
    ev.eval_expr(list(vec![sym("define"), sym("f"), f]), DEFAULT_FUEL)
        .unwrap();
    assert_eq!(
        ev.eval_expr(list(vec![sym("f"), num(1.0)]), DEFAULT_FUEL),
        Ok(num(100.0))
    );
    assert_eq!(
        ev.eval_expr(sym("y"), DEFAULT_FUEL),
        Err(EvalError::UndefinedSymbol(String::from("y")))
    );
}

#[test]
fn reserved_names_cannot_be_shadowed() {
    let mut ev = Evaluator::new();
    assert_eq!(
        ev.eval_expr(
            list(vec![sym("define"), sym("+"), num(100.0)]),
            DEFAULT_FUEL
        ),
        Ok(num(100.0))
    );
    assert_eq!(
        ev.eval_expr(call2("+", num(1.0), num(2.0)), DEFAULT_FUEL),
        Ok(num(3.0))
    );
}

#[test]
fn closure_sees_bindings_added_before_the_call() {
    let mut ev = Evaluator::new();
    let g = list(vec![sym("function"), list(vec![]), sym("h")]);
    ev.eval_expr(list(vec![sym("define"), sym("g"), g]), DEFAULT_FUEL)
        .unwrap();
    ev.eval_expr(list(vec![sym("define"), sym("h"), num(5.0)]), DEFAULT_FUEL)
        .unwrap();
    assert_eq!(
        ev.eval_expr(list(vec![sym("g")]), DEFAULT_FUEL),
        Ok(num(5.0))
    );
}

#[test]
fn sequential_argument_binding_in_callee_frame() {
    let mut ev = Evaluator::new();
    let f = list(vec![
        sym("function"),
        list(vec![sym("a"), sym("b")]),
        sym("b"),
    ]);
    ev.eval_expr(list(vec![sym("define"), sym("f"), f]), DEFAULT_FUEL)
        .unwrap();
    // the second argument is the symbol `a`, which is resolvable only
    // because arguments are evaluated inside the frame being built, after
    // earlier parameters are bound
    assert_eq!(
        ev.eval_expr(list(vec![sym("f"), num(1.0), sym("a")]), DEFAULT_FUEL),
        Ok(num(1.0))
    );
}

#[test]
fn failing_body_restores_callers_frame() {
    let mut ev = Evaluator::new();
    let body = list(vec![
        sym("begin"),
        list(vec![sym("define"), sym("z"), num(5.0)]),
        sym("nope"),
    ]);
    let f = list(vec![sym("function"), list(vec![sym("x")]), body]);
    ev.eval_expr(list(vec![sym("define"), sym("f"), f]), DEFAULT_FUEL)
        .unwrap();
    assert_eq!(
        ev.eval_expr(list(vec![sym("f"), num(1.0)]), DEFAULT_FUEL),
        Err(EvalError::UndefinedSymbol(String::from("nope")))
    );
    // the failed call's frame is gone: its binding is invisible and
    // evaluation continues in the caller's frame
    assert_eq!(
        ev.eval_expr(sym("z"), DEFAULT_FUEL),
        Err(EvalError::UndefinedSymbol(String::from("z")))
    );
    assert_eq!(
        ev.eval_expr(call2("+", num(1.0), num(2.0)), DEFAULT_FUEL),
        Ok(num(3.0))
    );
}

#[test]
fn frame_set_shadows_and_get_finds_latest() {
    let mut f = Frame::new();
    f.set(String::from("a"), num(1.0));
    f.set(String::from("a"), num(2.0));
    assert_eq!(f.get(&String::from("a")), Some(&num(2.0)));
    assert_eq!(f.get(&String::from("b")), None);
}

#[test]
fn list_len_get_and_vec_round_trip() {
    let items = vec![num(1.0), sym("a"), num(3.0)];
    let l = List::from_vec(items);
    assert_eq!(l.len(), 3);
    assert_eq!(l.get(0), Some(&num(1.0)));
    assert_eq!(l.get(1), Some(&sym("a")));
    assert_eq!(l.get(2), Some(&num(3.0)));
    assert_eq!(l.get(3), None);
    assert_eq!(l.to_vec(), vec![num(1.0), sym("a"), num(3.0)]);
}

#[test]
fn deep_nesting_reports_depth_limit() {
    let mut e = num(1.0);
    for _ in 0..2000 {
        e = list(vec![sym("begin"), e]);
    }
    assert_eq!(eval(e), Err(EvalError::DepthLimit));
}
