//! What an expression means, said directly: a value computed from the values
//! of its parts, with no continuation in sight. That the machine arrives at
//! every answer given here is proved in `adequacy`.

use crate::machine::{bind_spec, chosen_branch, lookup_spec, wrapping_sum, EvalError};
use crate::syntax::ExprView;
use crate::value::{BindingView, CallableView, ValueView};
use vstd::prelude::*;

verus! {

/// What an evaluation comes to.
pub enum Answer<T> {
    /// It yields this.
    Value(T),
    /// It fails.
    Error(EvalError),
    /// Nothing is said: closures are applied more deeply than the bound
    /// allows, or a continuation stands in the function position of a call
    /// and takes the control elsewhere.
    Undetermined,
}

/// An answer, and the number of steps after which the machine has it.
pub struct Verdict<T> {
    pub answer: Answer<T>,
    pub steps: nat,
}

/// The same failure or silence, for an evaluation of which this one is a
/// part.
pub open spec fn passed_on<T, U>(a: Answer<T>) -> Answer<U> {
    match a {
        Answer::Error(error) => Answer::Error(error),
        _ => Answer::Undetermined,
    }
}

/// Where a call of `callee` with `arguments` enters: the body and the
/// environment in which it runs. A closure made by `lambda` fails with
/// `ArityMismatch` unless there is one argument for each parameter. Of a
/// continuation that is called like a function nothing is said, but that it
/// takes exactly one value.
pub open spec fn entry_spec(callee: CallableView, arguments: Seq<ValueView>) -> Answer<
    (ExprView, Seq<BindingView>),
> {
    match callee {
        CallableView::Lambda { params, body, env } => if arguments.len() != params.len() {
            Answer::Error(EvalError::ArityMismatch)
        } else {
            Answer::Value((*body, bind_spec(params, arguments, env)))
        },
        CallableView::Resume(_) => if arguments.len() != 0 {
            Answer::Error(EvalError::ArityMismatch)
        } else {
            Answer::Undetermined
        },
    }
}

/// The verdict on a call, from the verdict on the body: the result of the
/// body is the result of the call, three steps later.
pub open spec fn returned(body: Verdict<ValueView>) -> Verdict<ValueView> {
    match body.answer {
        Answer::Value(_) => Verdict { answer: body.answer, steps: body.steps + 3 },
        other => Verdict { answer: other, steps: body.steps + 1 },
    }
}

/// The meaning of `expr` in `env`, where closures are applied at most `depth`
/// deep.
///
/// Operands are evaluated from left to right, each once. The first failure
/// is the failure of the whole.
pub open spec fn eval_direct(expr: ExprView, env: Seq<BindingView>, depth: nat) -> Verdict<
    ValueView,
>
    decreases depth, expr, 0nat,
{
    match expr {
        ExprView::Nil => Verdict { answer: Answer::Value(ValueView::Nil), steps: 1 },
        ExprView::Int(n) => Verdict { answer: Answer::Value(ValueView::Integer(n)), steps: 1 },
        ExprView::Text(s) => Verdict { answer: Answer::Value(ValueView::Text(s)), steps: 1 },
        ExprView::Bool(b) => Verdict { answer: Answer::Value(ValueView::Boolean(b)), steps: 1 },
        ExprView::Var(name) => Verdict {
            answer: match lookup_spec(env, name) {
                Some(value) => Answer::Value(value),
                None => Answer::Error(EvalError::UnboundName),
            },
            steps: 1,
        },
        ExprView::Lambda(params, body) => Verdict {
            answer: Answer::Value(ValueView::Closure(CallableView::Lambda { params, body, env })),
            steps: 1,
        },
        ExprView::Cons(a, b) => {
            let car = eval_direct(*a, env, depth);
            match car.answer {
                Answer::Value(x) => {
                    let cdr = eval_direct(*b, env, depth);
                    match cdr.answer {
                        Answer::Value(y) => Verdict {
                            answer: Answer::Value(ValueView::Pair(Box::new(x), Box::new(y))),
                            steps: car.steps + cdr.steps + 3,
                        },
                        other => Verdict { answer: other, steps: car.steps + cdr.steps + 2 },
                    }
                },
                other => Verdict { answer: other, steps: car.steps + 1 },
            }
        },
        ExprView::Add(a, b) => {
            let lhs = eval_direct(*a, env, depth);
            match lhs.answer {
                Answer::Value(ValueView::Integer(x)) => {
                    let rhs = eval_direct(*b, env, depth);
                    match rhs.answer {
                        Answer::Value(ValueView::Integer(y)) => Verdict {
                            answer: Answer::Value(ValueView::Integer(wrapping_sum(x, y))),
                            steps: lhs.steps + rhs.steps + 3,
                        },
                        Answer::Value(_) => Verdict {
                            answer: Answer::Error(EvalError::TypeMismatch),
                            steps: lhs.steps + rhs.steps + 3,
                        },
                        other => Verdict { answer: other, steps: lhs.steps + rhs.steps + 2 },
                    }
                },
                Answer::Value(_) => Verdict {
                    answer: Answer::Error(EvalError::TypeMismatch),
                    steps: lhs.steps + 2,
                },
                other => Verdict { answer: other, steps: lhs.steps + 1 },
            }
        },
        ExprView::If(c, t, f) => {
            let condition = eval_direct(*c, env, depth);
            match condition.answer {
                Answer::Value(v) => {
                    let chosen = eval_direct(chosen_branch(v, *t, *f), env, depth);
                    Verdict { answer: chosen.answer, steps: condition.steps + chosen.steps + 2 }
                },
                other => Verdict { answer: other, steps: condition.steps + 1 },
            }
        },
        ExprView::Begin(first, rest) => {
            let head = eval_direct(*first, env, depth);
            if rest.len() == 0 {
                Verdict { answer: head.answer, steps: head.steps + 1 }
            } else {
                match head.answer {
                    Answer::Value(_) => {
                        let tail = statements_direct(rest, 0, env, depth);
                        Verdict { answer: tail.answer, steps: head.steps + tail.steps + 1 }
                    },
                    other => Verdict { answer: other, steps: head.steps + 1 },
                }
            }
        },
        ExprView::Call(f, args) => {
            let function = eval_direct(*f, env, depth);
            match function.answer {
                Answer::Value(ValueView::Closure(callee)) => {
                    let gathered = arguments_direct(args, 0, env, depth);
                    match gathered.answer {
                        Answer::Value(arguments) => {
                            let applied = match entry_spec(callee, arguments) {
                                Answer::Value((body, inner)) => if depth == 0 {
                                    Verdict { answer: Answer::Undetermined, steps: 0 }
                                } else {
                                    returned(eval_direct(body, inner, (depth - 1) as nat))
                                },
                                other => Verdict { answer: passed_on(other), steps: 1 },
                            };
                            Verdict {
                                answer: applied.answer,
                                steps: function.steps + gathered.steps + applied.steps + 2,
                            }
                        },
                        other => Verdict {
                            answer: passed_on(other),
                            steps: function.steps + gathered.steps + 2,
                        },
                    }
                },
                Answer::Value(_) => Verdict {
                    answer: Answer::Error(EvalError::NotCallable),
                    steps: function.steps + 2,
                },
                other => Verdict { answer: other, steps: function.steps + 1 },
            }
        },
    }
}

/// The meaning of the statements `rest[at..]` of a `begin`, run in order: the
/// value of the last one.
pub open spec fn statements_direct(
    rest: Seq<ExprView>,
    at: nat,
    env: Seq<BindingView>,
    depth: nat,
) -> Verdict<ValueView>
    recommends
        at < rest.len(),
    decreases depth, rest, rest.len() - at,
{
    if at >= rest.len() {
        Verdict { answer: Answer::Undetermined, steps: 0 }
    } else {
        let head = eval_direct(rest[at as int], env, depth);
        if at + 1 == rest.len() {
            Verdict { answer: head.answer, steps: head.steps + 1 }
        } else {
            match head.answer {
                Answer::Value(_) => {
                    let tail = statements_direct(rest, at + 1, env, depth);
                    Verdict { answer: tail.answer, steps: head.steps + tail.steps + 1 }
                },
                other => Verdict { answer: other, steps: head.steps + 1 },
            }
        }
    }
}

/// The values of the arguments `args[at..]` of a call, computed from left to
/// right.
pub open spec fn arguments_direct(
    args: Seq<ExprView>,
    at: nat,
    env: Seq<BindingView>,
    depth: nat,
) -> Verdict<Seq<ValueView>>
    decreases depth, args, args.len() - at,
{
    if at >= args.len() {
        Verdict { answer: Answer::Value(Seq::empty()), steps: 0 }
    } else {
        let head = eval_direct(args[at as int], env, depth);
        match head.answer {
            Answer::Value(v) => {
                let tail = arguments_direct(args, at + 1, env, depth);
                Verdict {
                    answer: match tail.answer {
                        Answer::Value(vs) => Answer::Value(seq![v] + vs),
                        other => other,
                    },
                    steps: head.steps + tail.steps + 1,
                }
            },
            other => Verdict { answer: passed_on(other), steps: head.steps },
        }
    }
}

/// The meaning of a call of `callee` with `arguments`: what the body means
/// with the parameters bound to the arguments, where closures are applied at
/// most `depth` deep, the call itself counted.
pub open spec fn apply_direct(
    callee: CallableView,
    arguments: Seq<ValueView>,
    depth: nat,
) -> Verdict<ValueView> {
    match entry_spec(callee, arguments) {
        Answer::Value((body, inner)) => if depth == 0 {
            Verdict { answer: Answer::Undetermined, steps: 0 }
        } else {
            returned(eval_direct(body, inner, (depth - 1) as nat))
        },
        other => Verdict { answer: passed_on(other), steps: 1 },
    }
}

} // verus!
