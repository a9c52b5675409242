use cps_lisp::engine::{appended, bind, chain, lookup, packed, unchain};
use cps_lisp::printer::render;
use cps_lisp::syntax::Expr;
use cps_lisp::value::{Callable, Env, Kont, Value};
use std::rc::Rc;

fn ints(ns: &[i64]) -> Vec<Rc<Value>> {
    ns.iter().map(|n| Rc::new(Value::Integer(*n))).collect()
}

#[test]
fn values_from_literals() {
    assert!(matches!(Value::from(true), Value::Boolean(true)));
    assert!(matches!(Value::from(false), Value::Boolean(false)));
    assert!(matches!(Value::from(-3i64), Value::Integer(-3)));
    match Value::from("foo") {
        Value::Text(s) => assert_eq!(s, "foo"),
        _ => panic!("text comes from text"),
    }
}

#[test]
fn builders_make_the_forms() {
    assert!(matches!(*Expr::nil(), Expr::Nil));
    assert!(matches!(*Expr::integer(4), Expr::Int(4)));
    assert!(matches!(*Expr::boolean(true), Expr::Bool(true)));
    match &*Expr::text("t") {
        Expr::Text(s) => assert_eq!(s, "t"),
        _ => panic!("a text literal"),
    }
    match &*Expr::var("v") {
        Expr::Var(s) => assert_eq!(s, "v"),
        _ => panic!("a name"),
    }
    match &*Expr::cons(Expr::integer(1), Expr::integer(2)) {
        Expr::Cons(a, b) => {
            assert!(matches!(**a, Expr::Int(1)));
            assert!(matches!(**b, Expr::Int(2)));
        },
        _ => panic!("a cons"),
    }
    match &*Expr::plus(Expr::integer(1), Expr::integer(2)) {
        Expr::Add(a, b) => {
            assert!(matches!(**a, Expr::Int(1)));
            assert!(matches!(**b, Expr::Int(2)));
        },
        _ => panic!("a sum"),
    }
    match &*Expr::branch(Expr::integer(1), Expr::integer(2), Expr::integer(3)) {
        Expr::If(c, t, f) => {
            assert!(matches!(**c, Expr::Int(1)));
            assert!(matches!(**t, Expr::Int(2)));
            assert!(matches!(**f, Expr::Int(3)));
        },
        _ => panic!("an if"),
    }
    match &*Expr::lambda(vec!["a".to_string(), "b".to_string()], Expr::var("a")) {
        Expr::Lambda(params, body) => {
            assert_eq!(**params, vec!["a".to_string(), "b".to_string()]);
            assert!(matches!(**body, Expr::Var(_)));
        },
        _ => panic!("a lambda"),
    }
    match &*Expr::begin(Expr::integer(1), vec![Expr::integer(2), Expr::integer(3)]) {
        Expr::Begin(first, rest) => {
            assert!(matches!(**first, Expr::Int(1)));
            assert_eq!(rest.len(), 2);
            assert!(matches!(*rest[1], Expr::Int(3)));
        },
        _ => panic!("a begin"),
    }
    match &*Expr::call(Expr::var("f"), vec![Expr::integer(2)]) {
        Expr::Call(f, args) => {
            assert!(matches!(**f, Expr::Var(_)));
            assert_eq!(args.len(), 1);
        },
        _ => panic!("a call"),
    }
}

#[test]
fn chain_holds_the_items_in_order() {
    assert_eq!(render(&chain(&ints(&[]))), "()");
    assert_eq!(render(&chain(&ints(&[1]))), "(1)");
    assert_eq!(render(&chain(&ints(&[1, 2, 3]))), "(1 2 3)");
}

#[test]
fn chain_shares_its_items() {
    let items = ints(&[1, 2]);
    let list = chain(&items);
    match &*list {
        Value::Pair(car, _) => assert!(Rc::ptr_eq(car, &items[0])),
        _ => panic!("a pair"),
    }
    assert_eq!(Rc::strong_count(&items[0]), 2);
}

#[test]
fn unchain_reads_a_chain_back() {
    let items = ints(&[4, 5, 6]);
    let back = unchain(&chain(&items)).unwrap();
    assert_eq!(back.len(), 3);
    for i in 0..3 {
        assert!(Rc::ptr_eq(&back[i], &items[i]));
    }
    assert_eq!(unchain(&Rc::new(Value::Nil)).unwrap().len(), 0);
}

#[test]
fn unchain_refuses_what_does_not_end_in_nil() {
    assert!(unchain(&Rc::new(Value::Integer(1))).is_none());
    let dotted = Rc::new(Value::Pair(Rc::new(Value::Integer(1)), Rc::new(Value::Integer(2))));
    assert!(unchain(&dotted).is_none());
    let dotted = Rc::new(Value::Pair(Rc::new(Value::Nil), Rc::new(Value::Text("x".to_string()))));
    assert!(unchain(&dotted).is_none());
}

#[test]
fn appended_adds_at_the_end_and_leaves_the_shorter_as_it_was() {
    let done = ints(&[1, 2]);
    let longer = appended(&done, &Rc::new(Value::Integer(3)));
    assert_eq!(done.len(), 2);
    assert_eq!(render(&chain(&longer)), "(1 2 3)");
    assert!(Rc::ptr_eq(&longer[0], &done[0]));
    let first = appended(&Vec::new(), &Rc::new(Value::Nil));
    assert_eq!(render(&chain(&first)), "(())");
}

#[test]
fn packed_puts_the_continuation_in_slot_zero() {
    let halt = Rc::new(Kont::Halt);
    let args = packed(&halt, &ints(&[7, 8]));
    assert_eq!(render(&args), "(<lambda> 7 8)");
    match &*args {
        Value::Pair(slot, _) => match &**slot {
            Value::Closure(Callable::Resume(k)) => assert!(Rc::ptr_eq(k, &halt)),
            _ => panic!("slot 0 holds the continuation"),
        },
        _ => panic!("a pair"),
    }
    assert_eq!(render(&packed(&halt, &Vec::new())), "(<lambda>)");
}

#[test]
fn bind_puts_later_parameters_inside() {
    let outer = Rc::new(Env::Bind("z".to_string(), Rc::new(Value::Integer(0)), Rc::new(Env::Empty)));
    let params = vec!["a".to_string(), "b".to_string(), "a".to_string()];
    let env = bind(&params, &ints(&[1, 2, 3]), &outer);
    assert_eq!(render(&lookup(&env, &"a".to_string()).unwrap()), "3");
    assert_eq!(render(&lookup(&env, &"b".to_string()).unwrap()), "2");
    assert_eq!(render(&lookup(&env, &"z".to_string()).unwrap()), "0");
    assert!(lookup(&env, &"c".to_string()).is_none());
    match &*env {
        Env::Bind(name, _, _) => assert_eq!(name, "a"),
        Env::Empty => panic!("three bindings were made"),
    }
}

#[test]
fn bind_stops_at_the_shorter_of_the_two() {
    let empty = Rc::new(Env::Empty);
    let params = vec!["a".to_string(), "b".to_string()];
    let env = bind(&params, &ints(&[1]), &empty);
    assert_eq!(render(&lookup(&env, &"a".to_string()).unwrap()), "1");
    assert!(lookup(&env, &"b".to_string()).is_none());
    let env = bind(&vec!["a".to_string()], &ints(&[1, 2]), &empty);
    assert_eq!(render(&lookup(&env, &"a".to_string()).unwrap()), "1");
    let env = bind(&Vec::new(), &ints(&[]), &empty);
    assert!(matches!(*env, Env::Empty));
}
