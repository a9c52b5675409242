//! Top-level bindings: a scope in which `define` introduces names, one after
//! the other, for the expressions that follow.
//!
//! While the initialiser of a name runs, the name's slot holds `Undef`, and a
//! reference to the name from inside its own initialiser observes that
//! `Undef`. Once the initialiser has delivered its value the slot holds the
//! value and never changes again.

use crate::engine::{evaluate, lookup, outcome_spec, Outcome, OutcomeView};
use crate::machine::{lookup_spec, run_spec, start_spec, EvalError, StateView};
use crate::protocol::{
    lemma_extended_plain, lemma_lookup_plain, plain_env, plain_value,
    theorem_continuations_well_formed,
};
use crate::shared::share;
use crate::syntax::{expr_view, names_view, Expr, ExprView};
use crate::value::{env_view, value_view, BindingView, CallableView, Env, Value, ValueView};
use std::rc::Rc;
use vstd::prelude::*;

verus! {

/// Why a definition did not take place.
#[derive(Clone, Copy, PartialEq, Eq, Debug, Structural)]
pub enum DefineError {
    /// The initialiser failed.
    Failed(EvalError),
    /// The initialiser had not delivered a value when the steps ran out.
    OutOfFuel,
}

/// `env` with `name` bound to `value` inside it.
pub open spec fn extended(env: Seq<BindingView>, name: Seq<char>, value: ValueView) -> Seq<
    BindingView,
> {
    seq![BindingView { name, value }] + env
}

/// The state in which the initialiser `expr` of `name` starts: the slot of
/// `name` is there and holds `Undef`.
pub open spec fn initialiser_spec(
    env: Seq<BindingView>,
    name: Seq<char>,
    expr: ExprView,
) -> StateView {
    start_spec(expr, extended(env, name, ValueView::Undef))
}

/// The closure that `(lambda (X1 .. Xn) BODY)` evaluates to as the
/// initialiser of `name` in `env`.
pub open spec fn function_spec(
    env: Seq<BindingView>,
    name: Seq<char>,
    params: Seq<Seq<char>>,
    body: ExprView,
) -> ValueView {
    ValueView::Closure(
        CallableView::Lambda {
            params,
            body: Box::new(body),
            env: extended(env, name, ValueView::Undef),
        },
    )
}

/// A scope of top-level bindings. What it binds are plain values: results
/// of evaluations, in none of which a continuation is held.
pub struct Scope {
    env: Rc<Env>,
}

impl View for Scope {
    type V = Seq<BindingView>;

    closed spec fn view(&self) -> Seq<BindingView> {
        self.env@
    }
}

impl Scope {
    #[verifier::type_invariant]
    spec fn plain(self) -> bool {
        plain_env(self.env@)
    }

    /// A scope without bindings.
    pub fn new() -> (scope: Scope)
        ensures
            scope@ == Seq::<BindingView>::empty(),
            plain_env(scope@),
    {
        Scope { env: Rc::new(Env::Empty) }
    }

    /// The environment that the scope stands for.
    pub fn env(&self) -> (env: Rc<Env>)
        ensures
            env@ == self@,
            plain_env(env@),
    {
        proof {
            use_type_invariant(self);
        }
        share(&self.env)
    }

    /// The value bound to `name`, if the scope binds it.
    pub fn lookup(&self, name: &String) -> (found: Option<Rc<Value>>)
        ensures
            match found {
                Some(value) => lookup_spec(self@, name@) == Some(value@) && plain_value(value@),
                None => lookup_spec(self@, name@) is None,
            },
    {
        proof {
            use_type_invariant(self);
            lemma_lookup_plain(self.env@, name@);
        }
        lookup(&self.env, name)
    }

    /// `define NAME EXPR`: evaluates `expr` for at most `fuel` steps, with
    /// the slot of `name` in place and holding `Undef`, and binds `name` to
    /// the value that comes out. Where the evaluation fails or does not end
    /// in time, the scope stays as it was.
    pub fn define(&mut self, name: String, expr: &Rc<Expr>, fuel: u64) -> (done: Result<
        (),
        DefineError,
    >)
        ensures
            match run_spec(initialiser_spec(old(self)@, name@, expr@), fuel as nat) {
                StateView::Done(value) => done is Ok && final(self)@ == extended(
                    old(self)@,
                    name@,
                    value,
                ),
                StateView::Failed(error) => done == Err::<(), DefineError>(
                    DefineError::Failed(error),
                ) && final(self)@ == old(self)@,
                _ => done == Err::<(), DefineError>(DefineError::OutOfFuel) && final(self)@ == old(
                    self,
                )@,
            },
            plain_env(old(self)@),
            plain_env(final(self)@),
    {
        proof {
            use_type_invariant(&*self);
            reveal_with_fuel(env_view, 2);
            reveal_with_fuel(value_view, 2);
            lemma_extended_plain(self.env@, name@, ValueView::Undef);
            theorem_continuations_well_formed(
                expr@,
                extended(self.env@, name@, ValueView::Undef),
                fuel as nat,
            );
        }
        let slot = Rc::new(Env::Bind(name.clone(), Rc::new(Value::Undef), share(&self.env)));
        match evaluate(expr, &slot, fuel) {
            Outcome::Value(value) => {
                proof {
                    lemma_extended_plain(self.env@, name@, value@);
                }
                self.env = Rc::new(Env::Bind(name, value, share(&self.env)));
                proof {
                    use_type_invariant(&*self);
                }
                Ok(())
            },
            Outcome::Error(error) => Err(DefineError::Failed(error)),
            Outcome::Unfinished(_) => Err(DefineError::OutOfFuel),
        }
    }

    /// `define (NAME X1 .. Xn) BODY`, which is `define NAME (lambda (X1 ..
    /// Xn) BODY)`: binds `name` to the closure. The closure was made while
    /// the slot of `name` held `Undef`, and that is what it sees of `name`.
    pub fn define_function(&mut self, name: String, params: Vec<String>, body: Rc<Expr>)
        ensures
            final(self)@ == extended(
                old(self)@,
                name@,
                function_spec(old(self)@, name@, names_view(params@), body@),
            ),
            run_spec(
                initialiser_spec(
                    old(self)@,
                    name@,
                    ExprView::Lambda(names_view(params@), Box::new(body@)),
                ),
                2,
            ) == StateView::Done(function_spec(old(self)@, name@, names_view(params@), body@)),
    {
        proof {
            reveal_with_fuel(expr_view, 2);
            reveal_with_fuel(run_spec, 3);
        }
        let lambda = Rc::new(Expr::Lambda(Rc::new(params), body));
        let done = self.define(name, &lambda, 2);
        assert(done is Ok);
    }

    /// Evaluates `expr` in the scope for at most `fuel` steps. Whatever the
    /// expression, the evaluation does not fail with `MalformedContinuation`:
    /// the machine builds every argument chain itself, and a scope holds no
    /// continuation that a program could misplace.
    pub fn evaluate(&self, expr: &Rc<Expr>, fuel: u64) -> (outcome: Outcome)
        ensures
            outcome@ == outcome_spec(run_spec(start_spec(expr@, self@), fuel as nat)),
            outcome@ != OutcomeView::Error(EvalError::MalformedContinuation),
            outcome@ matches OutcomeView::Value(value) ==> plain_value(value),
    {
        proof {
            use_type_invariant(self);
            theorem_continuations_well_formed(expr@, self.env@, fuel as nat);
        }
        evaluate(expr, &self.env, fuel)
    }
}

} // verus!
