use cps_lisp::engine::{call, evaluate, lookup, Outcome, State};
use cps_lisp::machine::EvalError;
use cps_lisp::printer::render;
use cps_lisp::scope::{DefineError, Scope};
use cps_lisp::syntax::Expr;
use cps_lisp::value::{Callable, Env, Kont, Value};
use std::rc::Rc;

fn nil() -> Rc<Expr> {
    Expr::nil()
}

fn num(n: i64) -> Rc<Expr> {
    Expr::integer(n)
}

fn text(s: &str) -> Rc<Expr> {
    Expr::text(s)
}

fn boolean(b: bool) -> Rc<Expr> {
    Expr::boolean(b)
}

fn var(s: &str) -> Rc<Expr> {
    Expr::var(s)
}

fn cons(a: Rc<Expr>, b: Rc<Expr>) -> Rc<Expr> {
    Expr::cons(a, b)
}

fn plus(a: Rc<Expr>, b: Rc<Expr>) -> Rc<Expr> {
    Expr::plus(a, b)
}

fn when(c: Rc<Expr>, t: Rc<Expr>, f: Rc<Expr>) -> Rc<Expr> {
    Expr::branch(c, t, f)
}

fn lambda(params: &[&str], body: Rc<Expr>) -> Rc<Expr> {
    Expr::lambda(params.iter().map(|p| p.to_string()).collect(), body)
}

fn begin(first: Rc<Expr>, rest: Vec<Rc<Expr>>) -> Rc<Expr> {
    Expr::begin(first, rest)
}

fn apply(f: Rc<Expr>, args: Vec<Rc<Expr>>) -> Rc<Expr> {
    Expr::call(f, args)
}

fn empty() -> Rc<Env> {
    Rc::new(Env::Empty)
}

fn printed(expr: Rc<Expr>) -> String {
    match evaluate(&expr, &empty(), 10_000) {
        Outcome::Value(v) => render(&v),
        Outcome::Error(e) => panic!("failed: {:?}", e),
        Outcome::Unfinished(_) => panic!("did not finish"),
    }
}

fn failure(expr: Rc<Expr>) -> EvalError {
    match evaluate(&expr, &empty(), 10_000) {
        Outcome::Error(e) => e,
        Outcome::Value(v) => panic!("gave {}", render(&v)),
        Outcome::Unfinished(_) => panic!("did not finish"),
    }
}

fn closure_of(expr: Rc<Expr>) -> Callable {
    match evaluate(&expr, &empty(), 100) {
        Outcome::Value(v) => match &*v {
            Value::Closure(c) => c.duplicate(),
            _ => panic!("no closure"),
        },
        _ => panic!("no value"),
    }
}

#[test]
fn literals_evaluate_to_themselves() {
    assert_eq!(printed(num(42)), "42");
    assert_eq!(printed(text("hi")), "hi");
    assert_eq!(printed(boolean(true)), "#t");
    assert_eq!(printed(boolean(false)), "#f");
    assert_eq!(printed(nil()), "()");
}

#[test]
fn addition_of_two_integers() {
    assert_eq!(printed(plus(num(1), num(2))), "3");
    assert_eq!(printed(plus(num(-5), num(5))), "0");
    assert_eq!(printed(plus(num(10), num(1))), "11");
    assert_eq!(printed(plus(plus(num(1), num(2)), plus(num(3), num(4)))), "10");
}

#[test]
fn addition_takes_exactly_six_steps_to_the_result() {
    let sum = plus(num(20), num(22));
    match evaluate(&sum, &empty(), 5) {
        Outcome::Unfinished(State::Return { value, .. }) => assert_eq!(render(&value), "42"),
        _ => panic!("five steps end in the hand-over of the sum"),
    }
    match evaluate(&sum, &empty(), 6) {
        Outcome::Value(v) => assert_eq!(render(&v), "42"),
        _ => panic!("six steps end in the result"),
    }
}

#[test]
fn addition_wraps_around() {
    assert_eq!(printed(plus(num(i64::MAX), num(1))), "-9223372036854775808");
    assert_eq!(printed(plus(num(i64::MIN), num(-1))), "9223372036854775807");
    assert_eq!(printed(plus(num(i64::MAX), num(i64::MAX))), "-2");
}

#[test]
fn addition_of_text_is_a_type_mismatch() {
    assert_eq!(failure(plus(num(1), text("x"))), EvalError::TypeMismatch);
    assert_eq!(failure(plus(text("x"), num(1))), EvalError::TypeMismatch);
    assert_eq!(failure(plus(nil(), num(1))), EvalError::TypeMismatch);
    assert_eq!(failure(plus(num(1), boolean(true))), EvalError::TypeMismatch);
}

#[test]
fn left_operand_is_checked_before_the_right_one_is_evaluated() {
    assert_eq!(failure(plus(text("x"), var("nowhere"))), EvalError::TypeMismatch);
    assert_eq!(failure(plus(num(1), var("nowhere"))), EvalError::UnboundName);
}

#[test]
fn cons_builds_pairs() {
    assert_eq!(printed(cons(num(1), num(2))), "(1 . 2)");
    assert_eq!(printed(cons(num(1), cons(num(2), nil()))), "(1 2)");
}

#[test]
fn cons_evaluates_left_to_right() {
    assert_eq!(failure(cons(plus(num(1), text("x")), var("nowhere"))), EvalError::TypeMismatch);
    assert_eq!(failure(cons(var("nowhere"), plus(num(1), text("x")))), EvalError::UnboundName);
}

#[test]
fn if_false_takes_else() {
    assert_eq!(printed(when(boolean(false), num(1), num(2))), "2");
    assert_eq!(printed(when(boolean(false), var("nowhere"), num(2))), "2");
}

#[test]
fn if_is_truthy_but_for_false() {
    assert_eq!(printed(when(nil(), num(1), num(2))), "1");
    assert_eq!(printed(when(num(0), num(1), num(2))), "1");
    assert_eq!(printed(when(text(""), num(1), num(2))), "1");
    assert_eq!(printed(when(boolean(true), num(1), num(2))), "1");
    assert_eq!(printed(when(cons(num(1), nil()), num(1), var("nowhere"))), "1");
    assert_eq!(printed(when(lambda(&[], num(0)), num(1), num(2))), "1");
}

#[test]
fn if_with_computed_condition() {
    let cond = when(boolean(true), boolean(false), boolean(true));
    assert_eq!(printed(when(cond, num(1), num(2))), "2");
}

#[test]
fn begin_yields_its_last_statement() {
    assert_eq!(printed(begin(num(1), vec![])), "1");
    assert_eq!(printed(begin(num(1), vec![num(2)])), "2");
    assert_eq!(printed(begin(num(1), vec![num(2), num(3), text("end")])), "end");
}

#[test]
fn begin_runs_every_statement_in_order() {
    let e = begin(num(1), vec![plus(num(1), text("x")), var("nowhere")]);
    assert_eq!(failure(e), EvalError::TypeMismatch);
    let e = begin(var("nowhere"), vec![plus(num(1), text("x"))]);
    assert_eq!(failure(e), EvalError::UnboundName);
    let e = begin(num(1), vec![num(2), var("nowhere")]);
    assert_eq!(failure(e), EvalError::UnboundName);
}

#[test]
fn lambda_evaluates_to_a_closure() {
    assert_eq!(printed(lambda(&["a"], var("a"))), "<lambda>");
}

#[test]
fn application_binds_the_parameters() {
    let id = lambda(&["a"], var("a"));
    assert_eq!(printed(apply(id, vec![num(5)])), "5");
    let second = lambda(&["a", "b"], var("b"));
    assert_eq!(printed(apply(second, vec![num(1), num(2)])), "2");
    let swap = lambda(&["a", "b"], cons(var("b"), var("a")));
    assert_eq!(printed(apply(swap, vec![num(1), num(2)])), "(2 . 1)");
    let constant = lambda(&[], num(9));
    assert_eq!(printed(apply(constant, vec![])), "9");
}

#[test]
fn a_later_parameter_shadows_an_earlier_one_of_the_same_name() {
    let f = lambda(&["a", "a"], var("a"));
    assert_eq!(printed(apply(f, vec![num(1), num(2)])), "2");
}

#[test]
fn closures_capture_their_environment() {
    let adder = lambda(&["a"], lambda(&["b"], plus(var("a"), var("b"))));
    let add3 = apply(adder, vec![num(3)]);
    assert_eq!(printed(apply(add3, vec![num(4)])), "7");
}

#[test]
fn lambda_body_of_several_statements() {
    let f = lambda(&["a"], begin(num(0), vec![plus(var("a"), num(1))]));
    assert_eq!(printed(apply(f, vec![num(1)])), "2");
}

#[test]
fn arguments_are_evaluated_left_to_right() {
    let f = lambda(&["a", "b"], num(0));
    let e = apply(f.clone(), vec![plus(num(1), text("x")), var("nowhere")]);
    assert_eq!(failure(e), EvalError::TypeMismatch);
    let e = apply(f, vec![var("nowhere"), plus(num(1), text("x"))]);
    assert_eq!(failure(e), EvalError::UnboundName);
}

#[test]
fn function_position_is_evaluated_and_checked_first() {
    assert_eq!(failure(apply(num(1), vec![var("nowhere")])), EvalError::NotCallable);
    assert_eq!(failure(apply(var("nowhere"), vec![num(1)])), EvalError::UnboundName);
}

#[test]
fn calling_what_is_no_closure_fails() {
    assert_eq!(failure(apply(num(1), vec![])), EvalError::NotCallable);
    assert_eq!(failure(apply(text("f"), vec![num(1)])), EvalError::NotCallable);
    assert_eq!(failure(apply(nil(), vec![])), EvalError::NotCallable);
    assert_eq!(failure(apply(cons(num(1), num(2)), vec![])), EvalError::NotCallable);
}

#[test]
fn wrong_number_of_arguments_fails() {
    let one = lambda(&["a"], var("a"));
    assert_eq!(failure(apply(one.clone(), vec![])), EvalError::ArityMismatch);
    assert_eq!(failure(apply(one.clone(), vec![num(1), num(2)])), EvalError::ArityMismatch);
    assert_eq!(failure(apply(one, vec![num(1), num(2), num(3)])), EvalError::ArityMismatch);
    let none = lambda(&[], num(0));
    assert_eq!(failure(apply(none, vec![num(1)])), EvalError::ArityMismatch);
    let two = lambda(&["a", "b"], var("a"));
    assert_eq!(failure(apply(two, vec![num(1)])), EvalError::ArityMismatch);
}

#[test]
fn unbound_name_fails() {
    assert_eq!(failure(var("nowhere")), EvalError::UnboundName);
}

#[test]
fn call_with_every_count_of_arguments_but_the_right_one() {
    let three = closure_of(lambda(&["a", "b", "c"], var("c")));
    for m in 0..8usize {
        let arguments: Vec<Rc<Value>> =
            (0..m).map(|i| Rc::new(Value::Integer(i as i64))).collect();
        match call(&three, &arguments, 1000) {
            Outcome::Value(v) => {
                assert_eq!(m, 3);
                assert_eq!(render(&v), "2");
            },
            Outcome::Error(e) => {
                assert_ne!(m, 3);
                assert_eq!(e, EvalError::ArityMismatch);
            },
            Outcome::Unfinished(_) => panic!("did not finish"),
        }
    }
}

fn invoke(callee: &Callable, args: Value) -> State {
    State::Invoke { callee: callee.duplicate(), args: Rc::new(args) }.step()
}

fn list(items: Vec<Value>) -> Value {
    let mut out = Value::Nil;
    for item in items.into_iter().rev() {
        out = Value::Pair(Rc::new(item), Rc::new(out));
    }
    out
}

fn halt() -> Value {
    Value::Closure(Callable::Resume(Rc::new(Kont::Halt)))
}

#[test]
fn malformed_argument_chains() {
    let one = closure_of(lambda(&["a"], var("a")));
    assert!(matches!(invoke(&one, Value::Nil), State::Failed(EvalError::ArityMismatch)));
    assert!(matches!(invoke(&one, Value::Integer(1)), State::Failed(EvalError::ArityMismatch)));
    let dotted = Value::Pair(
        Rc::new(halt()),
        Rc::new(Value::Pair(Rc::new(Value::Integer(1)), Rc::new(Value::Integer(2)))),
    );
    assert!(matches!(invoke(&one, dotted), State::Failed(EvalError::ArityMismatch)));
    assert!(matches!(
        invoke(&one, list(vec![Value::Integer(0), Value::Integer(1)])),
        State::Failed(EvalError::MalformedContinuation)
    ));
    assert!(matches!(
        invoke(&one, list(vec![Value::Integer(0)])),
        State::Failed(EvalError::ArityMismatch)
    ));
    assert!(matches!(
        invoke(&one, list(vec![halt(), Value::Integer(1)])),
        State::Eval { .. }
    ));
}

#[test]
fn a_continuation_takes_exactly_one_value() {
    let k = Callable::Resume(Rc::new(Kont::Halt));
    match invoke(&k, list(vec![Value::Integer(5)])) {
        State::Return { value, .. } => assert_eq!(render(&value), "5"),
        _ => panic!("the value is handed over"),
    }
    assert!(matches!(invoke(&k, Value::Nil), State::Failed(EvalError::ArityMismatch)));
    assert!(matches!(
        invoke(&k, list(vec![Value::Integer(5), Value::Integer(6)])),
        State::Failed(EvalError::ArityMismatch)
    ));
    assert!(matches!(
        invoke(&k, Value::Pair(Rc::new(Value::Integer(5)), Rc::new(Value::Integer(6)))),
        State::Failed(EvalError::ArityMismatch)
    ));
}

#[test]
fn the_result_of_a_body_is_forwarded_as_a_chain_of_one() {
    let f = closure_of(lambda(&[], num(7)));
    let mut state = State::call(&f, &vec![]);
    let mut seen = false;
    for _ in 0..10 {
        if let State::Invoke { callee: Callable::Resume(_), args } = &state {
            assert_eq!(render(args), "(7)");
            seen = true;
        }
        state = state.step();
    }
    assert!(seen);
    assert!(matches!(state, State::Done(_)));
}

fn foo_scope() -> Scope {
    let mut scope = Scope::new();
    let body = when(
        boolean(true),
        cons(plus(var("a"), num(1)), cons(text("foo"), nil())),
        boolean(false),
    );
    scope.define_function("foo".to_string(), vec!["a".to_string()], body);
    scope
}

#[test]
fn end_to_end_foo() {
    let scope = foo_scope();
    match scope.evaluate(&apply(var("foo"), vec![num(10)]), 10_000) {
        Outcome::Value(v) => assert_eq!(render(&v), "(11 foo)"),
        _ => panic!("no value"),
    }
}

#[test]
fn define_binds_the_value_for_what_follows() {
    let mut scope = Scope::new();
    assert_eq!(scope.define("x".to_string(), &plus(num(1), num(2)), 100), Ok(()));
    assert_eq!(scope.define("y".to_string(), &cons(var("x"), var("x")), 100), Ok(()));
    match scope.evaluate(&var("y"), 100) {
        Outcome::Value(v) => assert_eq!(render(&v), "(3 . 3)"),
        _ => panic!("no value"),
    }
    assert_eq!(render(&scope.lookup(&"x".to_string()).unwrap()), "3");
    assert!(scope.lookup(&"z".to_string()).is_none());
}

#[test]
fn a_later_definition_shadows_an_earlier_one() {
    let mut scope = Scope::new();
    assert_eq!(scope.define("x".to_string(), &num(1), 100), Ok(()));
    assert_eq!(scope.define("x".to_string(), &plus(var("x"), num(1)), 100), Err(DefineError::Failed(EvalError::TypeMismatch)));
    assert_eq!(scope.define("x".to_string(), &num(2), 100), Ok(()));
    assert_eq!(render(&scope.lookup(&"x".to_string()).unwrap()), "2");
}

#[test]
fn a_failed_definition_leaves_the_scope_as_it_was() {
    let mut scope = Scope::new();
    assert_eq!(scope.define("x".to_string(), &num(1), 100), Ok(()));
    assert_eq!(
        scope.define("y".to_string(), &plus(num(1), text("x")), 100),
        Err(DefineError::Failed(EvalError::TypeMismatch))
    );
    assert!(scope.lookup(&"y".to_string()).is_none());
    assert_eq!(scope.define("x".to_string(), &plus(num(1), num(1)), 3), Err(DefineError::OutOfFuel));
    assert_eq!(render(&scope.lookup(&"x".to_string()).unwrap()), "1");
}

#[test]
fn self_reference_in_an_initialiser_observes_undef() {
    let mut scope = Scope::new();
    assert_eq!(scope.define("x".to_string(), &var("x"), 100), Ok(()));
    assert_eq!(render(&scope.lookup(&"x".to_string()).unwrap()), "<undefined>");
    assert_eq!(scope.define("p".to_string(), &cons(var("p"), num(1)), 100), Ok(()));
    assert_eq!(render(&scope.lookup(&"p".to_string()).unwrap()), "(<undefined> . 1)");
}

#[test]
fn a_function_sees_its_own_name_as_undef() {
    let mut scope = Scope::new();
    scope.define_function(
        "f".to_string(),
        vec!["a".to_string()],
        apply(var("f"), vec![var("a")]),
    );
    match scope.evaluate(&apply(var("f"), vec![num(1)]), 1000) {
        Outcome::Error(e) => assert_eq!(e, EvalError::NotCallable),
        _ => panic!("the inner call meets the empty slot"),
    }
}

#[test]
fn undef_reference_prints_as_undefined() {
    let env = Rc::new(Env::Bind("slot".to_string(), Rc::new(Value::Undef), empty()));
    match evaluate(&var("slot"), &env, 2) {
        Outcome::Value(v) => assert_eq!(render(&v), "<undefined>"),
        _ => panic!("no value"),
    }
}

fn omega() -> Rc<Expr> {
    let half = lambda(&["x"], apply(var("x"), vec![var("x")]));
    apply(half.clone(), vec![half])
}

#[test]
fn a_run_that_does_not_end_stops_when_the_fuel_is_spent() {
    match evaluate(&omega(), &empty(), 100_000) {
        Outcome::Unfinished(_) => {},
        _ => panic!("omega has no value"),
    }
}

#[test]
fn a_run_can_be_resumed() {
    let e = plus(plus(num(1), num(2)), plus(num(3), num(4)));
    let whole = State::start(&e, &empty()).run(1000);
    let mut state = State::start(&e, &empty());
    let mut rounds = 0;
    while !state.finished() {
        state = state.run(3);
        rounds += 1;
        assert!(rounds < 100);
    }
    assert!(rounds > 1);
    match (whole, state) {
        (State::Done(a), State::Done(b)) => {
            assert_eq!(render(&a), "10");
            assert_eq!(render(&b), "10");
        },
        _ => panic!("both runs end with the result"),
    }
}

#[test]
fn a_finished_state_stays_as_it_is() {
    let done = State::start(&num(1), &empty()).run(10);
    assert!(done.finished());
    match done.step().step().run(5) {
        State::Done(v) => assert_eq!(render(&v), "1"),
        _ => panic!("still done"),
    }
    let failed = State::start(&var("nowhere"), &empty()).run(10);
    assert!(matches!(failed.step().run(5), State::Failed(EvalError::UnboundName)));
}

fn count_deliveries(mut state: State, steps: usize) -> (usize, State) {
    let mut count = 0;
    for _ in 0..steps {
        if let State::Return { kont, .. } = &state {
            if matches!(**kont, Kont::Halt) {
                count += 1;
            }
        }
        state = state.step();
    }
    (count, state)
}

#[test]
fn the_outermost_continuation_is_invoked_exactly_once_per_activation() {
    let f = closure_of(lambda(
        &["a"],
        begin(var("a"), vec![cons(var("a"), nil()), plus(var("a"), num(1))]),
    ));
    let arguments = vec![Rc::new(Value::Integer(1))];
    let (count, end) = count_deliveries(State::call(&f, &arguments), 500);
    assert_eq!(count, 1);
    assert!(matches!(end, State::Done(_)));

    let bad = vec![Rc::new(Value::Text("t".to_string()))];
    let (count, end) = count_deliveries(State::call(&f, &bad), 500);
    assert_eq!(count, 0);
    assert!(matches!(end, State::Failed(EvalError::TypeMismatch)));

    let (count, end) = count_deliveries(State::start(&omega(), &empty()), 5000);
    assert_eq!(count, 0);
    assert!(!end.finished());
}

#[test]
fn lookup_finds_the_innermost_binding_and_shares_it() {
    let one = Rc::new(Value::Integer(1));
    let two = Rc::new(Value::Integer(2));
    let outer = Rc::new(Env::Bind("x".to_string(), one.clone(), empty()));
    let inner = Rc::new(Env::Bind("x".to_string(), two.clone(), outer.clone()));
    let env = Rc::new(Env::Bind("y".to_string(), one.clone(), inner));
    let found = lookup(&env, &"x".to_string()).unwrap();
    assert!(Rc::ptr_eq(&found, &two));
    assert!(Rc::strong_count(&two) >= 3);
    assert!(Rc::ptr_eq(&lookup(&outer, &"x".to_string()).unwrap(), &one));
    assert!(lookup(&env, &"z".to_string()).is_none());
}

#[test]
fn deep_nesting_costs_no_native_stack() {
    let mut e = num(0);
    for _ in 0..20_000 {
        e = plus(e, num(1));
    }
    match evaluate(&e, &empty(), 1_000_000) {
        Outcome::Value(v) => assert_eq!(render(&v), "20000"),
        _ => panic!("no value"),
    }
    std::mem::forget(e);
}

#[test]
fn a_continuation_in_function_position_takes_the_control() {
    let k = Rc::new(Value::Closure(Callable::Resume(Rc::new(Kont::Halt))));
    let env = Rc::new(Env::Bind("k".to_string(), k, empty()));
    let e = cons(num(1), apply(var("k"), vec![]));
    match evaluate(&e, &env, 1000) {
        Outcome::Value(v) => assert_eq!(render(&v), "<lambda>"),
        _ => panic!("the outermost continuation received the caller's continuation"),
    }
    let e = cons(num(1), apply(var("k"), vec![num(2)]));
    match evaluate(&e, &env, 1000) {
        Outcome::Error(error) => assert_eq!(error, EvalError::ArityMismatch),
        _ => panic!("a continuation takes one value"),
    }
}

#[test]
fn programs_in_a_scope_never_meet_a_malformed_continuation() {
    let mut scope = Scope::new();
    scope.define_function("id".to_string(), vec!["a".to_string()], var("a"));
    scope.define_function("zero".to_string(), vec![], num(0));
    let programs = vec![
        apply(var("id"), vec![num(1)]),
        apply(var("id"), vec![]),
        apply(var("zero"), vec![]),
        apply(var("zero"), vec![num(1)]),
        apply(apply(var("id"), vec![var("zero")]), vec![]),
        apply(apply(var("zero"), vec![]), vec![]),
        plus(apply(var("id"), vec![text("t")]), num(1)),
    ];
    let expected = vec![
        Ok("1"),
        Err(EvalError::ArityMismatch),
        Ok("0"),
        Err(EvalError::ArityMismatch),
        Ok("0"),
        Err(EvalError::NotCallable),
        Err(EvalError::TypeMismatch),
    ];
    for (program, want) in programs.iter().zip(expected) {
        let got = match scope.evaluate(program, 10_000) {
            Outcome::Value(v) => Ok(render(&v)),
            Outcome::Error(e) => Err(e),
            Outcome::Unfinished(_) => panic!("did not finish"),
        };
        assert_eq!(got, want.map(|s| s.to_string()));
    }
}

#[test]
fn a_cloned_value_shares_its_parts() {
    let car = Rc::new(Value::Integer(1));
    let pair = Value::Pair(car.clone(), Rc::new(Value::Nil));
    let copy = pair.clone();
    match (&pair, &copy) {
        (Value::Pair(a, _), Value::Pair(b, _)) => assert!(Rc::ptr_eq(a, b)),
        _ => panic!("both are pairs"),
    }
    assert_eq!(render(&copy), "(1)");
}
