//! Expressions: the tree that the machine evaluates.

use std::rc::Rc;
use vstd::prelude::*;

verus! {

/// An expression of the language.
#[derive(Clone)]
pub enum Expr {
    /// The empty-list literal `()`.
    Nil,
    /// An integer literal.
    Int(i64),
    /// A text literal.
    Text(String),
    /// A boolean literal.
    Bool(bool),
    /// A reference to a name.
    Var(String),
    /// `(cons A B)`.
    Cons(Rc<Expr>, Rc<Expr>),
    /// `(+ A B)`.
    Add(Rc<Expr>, Rc<Expr>),
    /// `(if COND THEN ELSE)`.
    If(Rc<Expr>, Rc<Expr>, Rc<Expr>),
    /// `(lambda (X1 .. Xn) BODY)`: the parameters and the body. A body of
    /// several statements is a `Begin`.
    Lambda(Rc<Vec<String>>, Rc<Expr>),
    /// `(begin S1 S2 .. Sn)`: the first statement and those after it.
    Begin(Rc<Expr>, Rc<Vec<Rc<Expr>>>),
    /// `(F A1 .. An)`.
    Call(Rc<Expr>, Rc<Vec<Rc<Expr>>>),
}

/// The mathematical form of an expression.
pub enum ExprView {
    Nil,
    Int(i64),
    Text(Seq<char>),
    Bool(bool),
    Var(Seq<char>),
    Cons(Box<ExprView>, Box<ExprView>),
    Add(Box<ExprView>, Box<ExprView>),
    If(Box<ExprView>, Box<ExprView>, Box<ExprView>),
    Lambda(Seq<Seq<char>>, Box<ExprView>),
    Begin(Box<ExprView>, Seq<ExprView>),
    Call(Box<ExprView>, Seq<ExprView>),
}

pub open spec fn names_view(names: Seq<String>) -> Seq<Seq<char>> {
    Seq::new(names.len(), |i: int| names[i]@)
}

pub open spec fn expr_view(e: Expr) -> ExprView
    decreases e,
{
    match e {
        Expr::Nil => ExprView::Nil,
        Expr::Int(n) => ExprView::Int(n),
        Expr::Text(s) => ExprView::Text(s@),
        Expr::Bool(b) => ExprView::Bool(b),
        Expr::Var(s) => ExprView::Var(s@),
        Expr::Cons(a, b) => ExprView::Cons(Box::new(expr_view(*a)), Box::new(expr_view(*b))),
        Expr::Add(a, b) => ExprView::Add(Box::new(expr_view(*a)), Box::new(expr_view(*b))),
        Expr::If(c, t, f) => ExprView::If(
            Box::new(expr_view(*c)),
            Box::new(expr_view(*t)),
            Box::new(expr_view(*f)),
        ),
        Expr::Lambda(params, body) => ExprView::Lambda(
            names_view(params@),
            Box::new(expr_view(*body)),
        ),
        Expr::Begin(first, rest) => ExprView::Begin(Box::new(expr_view(*first)), exprs_view(rest@)),
        Expr::Call(f, args) => ExprView::Call(Box::new(expr_view(*f)), exprs_view(args@)),
    }
}

pub open spec fn exprs_view(es: Seq<Rc<Expr>>) -> Seq<ExprView>
    decreases es,
{
    Seq::new(es.len(), |i: int| if 0 <= i < es.len() { expr_view(*es[i]) } else { ExprView::Nil })
}

impl View for Expr {
    type V = ExprView;

    open spec fn view(&self) -> ExprView {
        expr_view(*self)
    }
}

impl Expr {
    /// The empty-list literal `()`.
    pub fn nil() -> (e: Rc<Expr>)
        ensures
            e@ == ExprView::Nil,
    {
        Rc::new(Expr::Nil)
    }

    /// An integer literal.
    pub fn integer(n: i64) -> (e: Rc<Expr>)
        ensures
            e@ == ExprView::Int(n),
    {
        Rc::new(Expr::Int(n))
    }

    /// A text literal.
    pub fn text(s: &str) -> (e: Rc<Expr>)
        ensures
            e@ == ExprView::Text(s@),
    {
        Rc::new(Expr::Text(s.to_owned()))
    }

    /// A boolean literal.
    pub fn boolean(b: bool) -> (e: Rc<Expr>)
        ensures
            e@ == ExprView::Bool(b),
    {
        Rc::new(Expr::Bool(b))
    }

    /// A reference to the name `name`.
    pub fn var(name: &str) -> (e: Rc<Expr>)
        ensures
            e@ == ExprView::Var(name@),
    {
        Rc::new(Expr::Var(name.to_owned()))
    }

    /// `(cons A B)`.
    pub fn cons(a: Rc<Expr>, b: Rc<Expr>) -> (e: Rc<Expr>)
        ensures
            e@ == ExprView::Cons(Box::new(a@), Box::new(b@)),
    {
        Rc::new(Expr::Cons(a, b))
    }

    /// `(+ A B)`.
    pub fn plus(a: Rc<Expr>, b: Rc<Expr>) -> (e: Rc<Expr>)
        ensures
            e@ == ExprView::Add(Box::new(a@), Box::new(b@)),
    {
        Rc::new(Expr::Add(a, b))
    }

    /// `(if COND THEN ELSE)`.
    pub fn branch(condition: Rc<Expr>, consequent: Rc<Expr>, otherwise: Rc<Expr>) -> (e: Rc<Expr>)
        ensures
            e@ == ExprView::If(Box::new(condition@), Box::new(consequent@), Box::new(otherwise@)),
    {
        Rc::new(Expr::If(condition, consequent, otherwise))
    }

    /// `(lambda (X1 .. Xn) BODY)`.
    pub fn lambda(params: Vec<String>, body: Rc<Expr>) -> (e: Rc<Expr>)
        ensures
            e@ == ExprView::Lambda(names_view(params@), Box::new(body@)),
    {
        Rc::new(Expr::Lambda(Rc::new(params), body))
    }

    /// `(begin S1 S2 .. Sn)`, from `S1` and the statements after it.
    pub fn begin(first: Rc<Expr>, rest: Vec<Rc<Expr>>) -> (e: Rc<Expr>)
        ensures
            e@ == ExprView::Begin(Box::new(first@), exprs_view(rest@)),
    {
        Rc::new(Expr::Begin(first, Rc::new(rest)))
    }

    /// `(F A1 .. An)`.
    pub fn call(f: Rc<Expr>, args: Vec<Rc<Expr>>) -> (e: Rc<Expr>)
        ensures
            e@ == ExprView::Call(Box::new(f@), exprs_view(args@)),
    {
        Rc::new(Expr::Call(f, Rc::new(args)))
    }
}

} // verus!
