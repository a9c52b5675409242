//! Runtime values, environments and continuations, with their mathematical
//! forms.

use crate::syntax::{expr_view, exprs_view, names_view, Expr, ExprView};
use std::rc::Rc;
use vstd::prelude::*;
use vstd::std_specs::convert::FromSpecImpl;

verus! {

/// A runtime value. Values are never changed once built; pairs share their
/// parts through counted handles, and no cycle can be built.
#[derive(Clone)]
pub enum Value {
    /// What a binding slot holds before its initialiser has finished.
    Undef,
    /// The empty list.
    Nil,
    /// A pair of two values.
    Pair(Rc<Value>, Rc<Value>),
    Boolean(bool),
    /// A 64-bit signed integer. Addition wraps around.
    Integer(i64),
    /// Text, printed as it is.
    Text(String),
    /// Something that can be invoked with an argument chain.
    Closure(Callable),
}

/// What a closure value wraps.
#[derive(Clone)]
pub enum Callable {
    /// Made by `lambda`: parameters, body and the environment it was made in.
    Lambda { params: Rc<Vec<String>>, body: Rc<Expr>, env: Rc<Env> },
    /// The rest of a computation, waiting for one value.
    Resume(Rc<Kont>),
}

/// An environment: bindings from the innermost outwards.
#[derive(Clone)]
pub enum Env {
    Empty,
    Bind(String, Rc<Value>, Rc<Env>),
}

/// A continuation: what is done with the value that is being computed.
#[derive(Clone)]
pub enum Kont {
    /// The outermost continuation: the value is the result of the run.
    Halt,
    /// The car of a `cons` is being computed; `cdr` is evaluated next.
    ConsCdr { cdr: Rc<Expr>, env: Rc<Env>, next: Rc<Kont> },
    /// The cdr of a `cons` is being computed.
    ConsPair { car: Rc<Value>, next: Rc<Kont> },
    /// The left operand of `+` is being computed.
    AddRhs { rhs: Rc<Expr>, env: Rc<Env>, next: Rc<Kont> },
    /// The right operand of `+` is being computed.
    AddSum { lhs: i64, next: Rc<Kont> },
    /// The condition of an `if` is being computed.
    Choose { consequent: Rc<Expr>, otherwise: Rc<Expr>, env: Rc<Env>, next: Rc<Kont> },
    /// A statement of a `begin` is being computed; `rest[at]` runs next.
    Sequence { rest: Rc<Vec<Rc<Expr>>>, at: usize, env: Rc<Env>, next: Rc<Kont> },
    /// The function position of a call is being computed.
    Callee { args: Rc<Vec<Rc<Expr>>>, env: Rc<Env>, next: Rc<Kont> },
    /// Argument `args[at]` of a call is being computed.
    Argument {
        callee: Callable,
        args: Rc<Vec<Rc<Expr>>>,
        at: usize,
        done: Vec<Rc<Value>>,
        env: Rc<Env>,
        next: Rc<Kont>,
    },
    /// The body of a closure is being computed; its result goes to `to`.
    Reply { to: Callable },
}

/// The mathematical form of a value.
pub enum ValueView {
    Undef,
    Nil,
    Pair(Box<ValueView>, Box<ValueView>),
    Boolean(bool),
    Integer(i64),
    Text(Seq<char>),
    Closure(CallableView),
}

pub enum CallableView {
    Lambda { params: Seq<Seq<char>>, body: Box<ExprView>, env: Seq<BindingView> },
    Resume(Box<KontView>),
}

/// One binding of an environment.
pub struct BindingView {
    pub name: Seq<char>,
    pub value: ValueView,
}

pub enum KontView {
    Halt,
    ConsCdr { cdr: ExprView, env: Seq<BindingView>, next: Box<KontView> },
    ConsPair { car: ValueView, next: Box<KontView> },
    AddRhs { rhs: ExprView, env: Seq<BindingView>, next: Box<KontView> },
    AddSum { lhs: i64, next: Box<KontView> },
    Choose {
        consequent: ExprView,
        otherwise: ExprView,
        env: Seq<BindingView>,
        next: Box<KontView>,
    },
    Sequence { rest: Seq<ExprView>, at: nat, env: Seq<BindingView>, next: Box<KontView> },
    Callee { args: Seq<ExprView>, env: Seq<BindingView>, next: Box<KontView> },
    Argument {
        callee: CallableView,
        args: Seq<ExprView>,
        at: nat,
        done: Seq<ValueView>,
        env: Seq<BindingView>,
        next: Box<KontView>,
    },
    Reply { to: CallableView },
}

pub open spec fn value_view(v: Value) -> ValueView
    decreases v,
{
    match v {
        Value::Undef => ValueView::Undef,
        Value::Nil => ValueView::Nil,
        Value::Pair(a, d) => ValueView::Pair(Box::new(value_view(*a)), Box::new(value_view(*d))),
        Value::Boolean(b) => ValueView::Boolean(b),
        Value::Integer(n) => ValueView::Integer(n),
        Value::Text(s) => ValueView::Text(s@),
        Value::Closure(c) => ValueView::Closure(callable_view(c)),
    }
}

pub open spec fn callable_view(c: Callable) -> CallableView
    decreases c,
{
    match c {
        Callable::Lambda { params, body, env } => CallableView::Lambda {
            params: names_view(params@),
            body: Box::new(expr_view(*body)),
            env: env_view(*env),
        },
        Callable::Resume(k) => CallableView::Resume(Box::new(kont_view(*k))),
    }
}

pub open spec fn env_view(e: Env) -> Seq<BindingView>
    decreases e,
{
    match e {
        Env::Empty => Seq::empty(),
        Env::Bind(name, value, rest) => seq![
            BindingView { name: name@, value: value_view(*value) },
        ] + env_view(*rest),
    }
}

pub open spec fn values_view(vs: Seq<Rc<Value>>) -> Seq<ValueView>
    decreases vs,
{
    Seq::new(
        vs.len(),
        |i: int| if 0 <= i < vs.len() { value_view(*vs[i]) } else { ValueView::Undef },
    )
}

pub open spec fn kont_view(k: Kont) -> KontView
    decreases k,
{
    match k {
        Kont::Halt => KontView::Halt,
        Kont::ConsCdr { cdr, env, next } => KontView::ConsCdr {
            cdr: expr_view(*cdr),
            env: env_view(*env),
            next: Box::new(kont_view(*next)),
        },
        Kont::ConsPair { car, next } => KontView::ConsPair {
            car: value_view(*car),
            next: Box::new(kont_view(*next)),
        },
        Kont::AddRhs { rhs, env, next } => KontView::AddRhs {
            rhs: expr_view(*rhs),
            env: env_view(*env),
            next: Box::new(kont_view(*next)),
        },
        Kont::AddSum { lhs, next } => KontView::AddSum { lhs, next: Box::new(kont_view(*next)) },
        Kont::Choose { consequent, otherwise, env, next } => KontView::Choose {
            consequent: expr_view(*consequent),
            otherwise: expr_view(*otherwise),
            env: env_view(*env),
            next: Box::new(kont_view(*next)),
        },
        Kont::Sequence { rest, at, env, next } => KontView::Sequence {
            rest: exprs_view(rest@),
            at: at as nat,
            env: env_view(*env),
            next: Box::new(kont_view(*next)),
        },
        Kont::Callee { args, env, next } => KontView::Callee {
            args: exprs_view(args@),
            env: env_view(*env),
            next: Box::new(kont_view(*next)),
        },
        Kont::Argument { callee, args, at, done, env, next } => KontView::Argument {
            callee: callable_view(callee),
            args: exprs_view(args@),
            at: at as nat,
            done: values_view(done@),
            env: env_view(*env),
            next: Box::new(kont_view(*next)),
        },
        Kont::Reply { to } => KontView::Reply { to: callable_view(to) },
    }
}

impl View for Value {
    type V = ValueView;

    open spec fn view(&self) -> ValueView {
        value_view(*self)
    }
}

impl View for Callable {
    type V = CallableView;

    open spec fn view(&self) -> CallableView {
        callable_view(*self)
    }
}

impl View for Env {
    type V = Seq<BindingView>;

    open spec fn view(&self) -> Seq<BindingView> {
        env_view(*self)
    }
}

impl View for Kont {
    type V = KontView;

    open spec fn view(&self) -> KontView {
        kont_view(*self)
    }
}

impl From<bool> for Value {
    /// The boolean value of a literal.
    fn from(x: bool) -> (v: Value) {
        Value::Boolean(x)
    }
}

impl FromSpecImpl<bool> for Value {
    open spec fn obeys_from_spec() -> bool {
        true
    }

    open spec fn from_spec(x: bool) -> Value {
        Value::Boolean(x)
    }
}

impl From<i64> for Value {
    /// The integer value of a literal.
    fn from(x: i64) -> (v: Value) {
        Value::Integer(x)
    }
}

impl FromSpecImpl<i64> for Value {
    open spec fn obeys_from_spec() -> bool {
        true
    }

    open spec fn from_spec(x: i64) -> Value {
        Value::Integer(x)
    }
}

impl<'a> From<&'a str> for Value {
    /// The text value of a literal: its characters, owned.
    fn from(x: &'a str) -> (v: Value)
        ensures
            v@ == ValueView::Text(x@),
    {
        Value::Text(x.to_owned())
    }
}

impl<'a> FromSpecImpl<&'a str> for Value {
    /// Text is told apart by its characters only, so no one value is named
    /// here; `from` states what it returns through the view.
    open spec fn obeys_from_spec() -> bool {
        false
    }

    open spec fn from_spec(x: &'a str) -> Value {
        Value::Nil
    }
}

} // verus!
