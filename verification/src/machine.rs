//! The evaluation machine, as a mathematical function: states, one step, and
//! runs of many steps.
//!
//! Evaluation never returns a value to its caller. Every state hands its
//! result on, to a continuation that the state itself holds, and `step_spec`
//! makes one such control transfer. The outermost continuation, `Halt`, ends
//! the run with the value that it receives.

use crate::syntax::ExprView;
use crate::value::{BindingView, CallableView, KontView, ValueView};
use vstd::prelude::*;

verus! {

/// Why an evaluation was given up. A failure ends the run at once: there is
/// no partial result, and nothing is resumed.
#[derive(Clone, Copy, PartialEq, Eq, Debug, Structural)]
pub enum EvalError {
    /// An operand of `+` is not an integer.
    TypeMismatch,
    /// The function position of a call did not evaluate to a closure.
    NotCallable,
    /// A closure was invoked with the wrong number of arguments, or with an
    /// argument chain that has no continuation slot or does not end in `Nil`.
    ArityMismatch,
    /// The value in the continuation slot of an argument chain is no closure.
    MalformedContinuation,
    /// A name was referred to that no enclosing binding defines.
    UnboundName,
}

/// The mathematical form of a machine state.
pub enum StateView {
    /// `expr` is to be evaluated in `env`, and its value handed to `kont`.
    Eval { expr: ExprView, env: Seq<BindingView>, kont: KontView },
    /// `value` is handed to `kont`.
    Return { kont: KontView, value: ValueView },
    /// `callee` is invoked with the argument chain `args`.
    Invoke { callee: CallableView, args: ValueView },
    /// The outermost continuation has received the result.
    Done(ValueView),
    /// The evaluation was given up.
    Failed(EvalError),
}

/// The sum of two integers in 64-bit two's complement: the mathematical sum
/// where it fits, and else the sum brought back into range by 2^64.
pub open spec fn wrapping_sum(a: i64, b: i64) -> i64 {
    if a + b > i64::MAX {
        (a + b - 0x1_0000_0000_0000_0000) as i64
    } else if a + b < i64::MIN {
        (a + b + 0x1_0000_0000_0000_0000) as i64
    } else {
        (a + b) as i64
    }
}

/// The value bound to `name` by the innermost binding of it, if there is one.
pub open spec fn lookup_spec(env: Seq<BindingView>, name: Seq<char>) -> Option<ValueView>
    decreases env.len(),
{
    if env.len() == 0 {
        None
    } else if env[0].name == name {
        Some(env[0].value)
    } else {
        lookup_spec(env.drop_first(), name)
    }
}

/// The pair chain that holds `items` in order and ends in `Nil`.
pub open spec fn chain_spec(items: Seq<ValueView>) -> ValueView
    decreases items.len(),
{
    if items.len() == 0 {
        ValueView::Nil
    } else {
        ValueView::Pair(Box::new(items[0]), Box::new(chain_spec(items.drop_first())))
    }
}

/// The items of a pair chain that ends in `Nil`; `None` for any other value.
pub open spec fn chain_items(v: ValueView) -> Option<Seq<ValueView>>
    decreases v,
{
    match v {
        ValueView::Nil => Some(Seq::empty()),
        ValueView::Pair(car, cdr) => match chain_items(*cdr) {
            Some(rest) => Some(seq![*car] + rest),
            None => None,
        },
        _ => None,
    }
}

/// Reading a chain that was built from `items` gives `items` back.
pub proof fn lemma_chain_round_trip(items: Seq<ValueView>)
    ensures
        chain_items(chain_spec(items)) == Some(items),
    decreases items.len(),
{
    if items.len() > 0 {
        lemma_chain_round_trip(items.drop_first());
        assert(seq![items[0]] + items.drop_first() =~= items);
    }
}

/// The argument chain of a call: the continuation in slot 0, then the
/// arguments in order, then `Nil`.
pub open spec fn packed_spec(k: KontView, arguments: Seq<ValueView>) -> ValueView {
    ValueView::Pair(
        Box::new(ValueView::Closure(CallableView::Resume(Box::new(k)))),
        Box::new(chain_spec(arguments)),
    )
}

/// `env` with each parameter bound to the argument at its place, a later
/// parameter inside an earlier one. Where the two differ in number, what is
/// left over of the longer is not bound.
pub open spec fn bind_spec(
    params: Seq<Seq<char>>,
    arguments: Seq<ValueView>,
    env: Seq<BindingView>,
) -> Seq<BindingView>
    decreases params.len(),
{
    if params.len() == 0 || arguments.len() == 0 {
        env
    } else {
        bind_spec(
            params.drop_first(),
            arguments.drop_first(),
            seq![BindingView { name: params[0], value: arguments[0] }] + env,
        )
    }
}

/// The branch of an `if` that is taken on the condition's value: ELSE on the
/// boolean false, THEN on every other value.
pub open spec fn chosen_branch(
    condition: ValueView,
    consequent: ExprView,
    otherwise: ExprView,
) -> ExprView {
    if condition == ValueView::Boolean(false) {
        otherwise
    } else {
        consequent
    }
}

/// The first step of an evaluation.
pub open spec fn step_eval(expr: ExprView, env: Seq<BindingView>, kont: KontView) -> StateView {
    match expr {
        ExprView::Nil => StateView::Return { kont, value: ValueView::Nil },
        ExprView::Int(n) => StateView::Return { kont, value: ValueView::Integer(n) },
        ExprView::Text(s) => StateView::Return { kont, value: ValueView::Text(s) },
        ExprView::Bool(b) => StateView::Return { kont, value: ValueView::Boolean(b) },
        ExprView::Var(name) => match lookup_spec(env, name) {
            Some(value) => StateView::Return { kont, value },
            None => StateView::Failed(EvalError::UnboundName),
        },
        ExprView::Cons(a, b) => StateView::Eval {
            expr: *a,
            env,
            kont: KontView::ConsCdr { cdr: *b, env, next: Box::new(kont) },
        },
        ExprView::Add(a, b) => StateView::Eval {
            expr: *a,
            env,
            kont: KontView::AddRhs { rhs: *b, env, next: Box::new(kont) },
        },
        ExprView::If(c, t, f) => StateView::Eval {
            expr: *c,
            env,
            kont: KontView::Choose { consequent: *t, otherwise: *f, env, next: Box::new(kont) },
        },
        ExprView::Lambda(params, body) => StateView::Return {
            kont,
            value: ValueView::Closure(CallableView::Lambda { params, body, env }),
        },
        ExprView::Begin(first, rest) => if rest.len() == 0 {
            StateView::Eval { expr: *first, env, kont }
        } else {
            StateView::Eval {
                expr: *first,
                env,
                kont: KontView::Sequence { rest, at: 0, env, next: Box::new(kont) },
            }
        },
        ExprView::Call(f, args) => StateView::Eval {
            expr: *f,
            env,
            kont: KontView::Callee { args, env, next: Box::new(kont) },
        },
    }
}

/// What a continuation does with the value that it receives.
pub open spec fn step_return(kont: KontView, value: ValueView) -> StateView {
    match kont {
        KontView::Halt => StateView::Done(value),
        KontView::ConsCdr { cdr, env, next } => StateView::Eval {
            expr: cdr,
            env,
            kont: KontView::ConsPair { car: value, next },
        },
        KontView::ConsPair { car, next } => StateView::Return {
            kont: *next,
            value: ValueView::Pair(Box::new(car), Box::new(value)),
        },
        KontView::AddRhs { rhs, env, next } => match value {
            ValueView::Integer(lhs) => StateView::Eval {
                expr: rhs,
                env,
                kont: KontView::AddSum { lhs, next },
            },
            _ => StateView::Failed(EvalError::TypeMismatch),
        },
        KontView::AddSum { lhs, next } => match value {
            ValueView::Integer(rhs) => StateView::Return {
                kont: *next,
                value: ValueView::Integer(wrapping_sum(lhs, rhs)),
            },
            _ => StateView::Failed(EvalError::TypeMismatch),
        },
        KontView::Choose { consequent, otherwise, env, next } => StateView::Eval {
            expr: chosen_branch(value, consequent, otherwise),
            env,
            kont: *next,
        },
        KontView::Sequence { rest, at, env, next } => if at + 1 < rest.len() {
            StateView::Eval {
                expr: rest[at as int],
                env,
                kont: KontView::Sequence { rest, at: at + 1, env, next },
            }
        } else if at < rest.len() {
            StateView::Eval { expr: rest[at as int], env, kont: *next }
        } else {
            StateView::Return { kont: *next, value }
        },
        KontView::Callee { args, env, next } => match value {
            ValueView::Closure(callee) => if args.len() == 0 {
                StateView::Invoke { callee, args: packed_spec(*next, Seq::empty()) }
            } else {
                StateView::Eval {
                    expr: args[0],
                    env,
                    kont: KontView::Argument { callee, args, at: 0, done: Seq::empty(), env, next },
                }
            },
            _ => StateView::Failed(EvalError::NotCallable),
        },
        KontView::Argument { callee, args, at, done, env, next } => if at + 1 < args.len() {
            StateView::Eval {
                expr: args[at as int + 1],
                env,
                kont: KontView::Argument {
                    callee,
                    args,
                    at: at + 1,
                    done: done.push(value),
                    env,
                    next,
                },
            }
        } else {
            StateView::Invoke { callee, args: packed_spec(*next, done.push(value)) }
        },
        KontView::Reply { to } => StateView::Invoke {
            callee: to,
            args: ValueView::Pair(Box::new(value), Box::new(ValueView::Nil)),
        },
    }
}

/// The invocation of a closure with an argument chain.
///
/// A closure made by `lambda` wants the chain `Pair(K, Pair(v1, .. Pair(vn,
/// Nil)))` with one value for each of its parameters. It fails with
/// `ArityMismatch` where the chain has no slot 0, does not end in `Nil` or
/// holds another number of arguments, and with `MalformedContinuation` where
/// the count is right and `K` is no closure. Else the body is evaluated with
/// the parameters bound, and its result goes to `K` as the chain `Pair(r,
/// Nil)`. A continuation wants the chain `Pair(r, Nil)` and receives `r`.
pub open spec fn step_invoke(callee: CallableView, args: ValueView) -> StateView {
    match callee {
        CallableView::Lambda { params, body, env } => match args {
            ValueView::Pair(slot, rest) => match chain_items(*rest) {
                Some(arguments) => if arguments.len() != params.len() {
                    StateView::Failed(EvalError::ArityMismatch)
                } else {
                    match *slot {
                        ValueView::Closure(to) => StateView::Eval {
                            expr: *body,
                            env: bind_spec(params, arguments, env),
                            kont: KontView::Reply { to },
                        },
                        _ => StateView::Failed(EvalError::MalformedContinuation),
                    }
                },
                None => StateView::Failed(EvalError::ArityMismatch),
            },
            _ => StateView::Failed(EvalError::ArityMismatch),
        },
        CallableView::Resume(kont) => match args {
            ValueView::Pair(value, rest) => if *rest == ValueView::Nil {
                StateView::Return { kont: *kont, value: *value }
            } else {
                StateView::Failed(EvalError::ArityMismatch)
            },
            _ => StateView::Failed(EvalError::ArityMismatch),
        },
    }
}

/// One control transfer. A state that is `Done` or `Failed` stays as it is.
pub open spec fn step_spec(s: StateView) -> StateView {
    match s {
        StateView::Eval { expr, env, kont } => step_eval(expr, env, kont),
        StateView::Return { kont, value } => step_return(kont, value),
        StateView::Invoke { callee, args } => step_invoke(callee, args),
        StateView::Done(value) => s,
        StateView::Failed(error) => s,
    }
}

/// Whether the run has ended, with a result or with a failure.
pub open spec fn is_final(s: StateView) -> bool {
    s is Done || s is Failed
}

/// The state after `n` steps.
pub open spec fn run_spec(s: StateView, n: nat) -> StateView
    decreases n,
{
    if n == 0 {
        s
    } else {
        run_spec(step_spec(s), (n - 1) as nat)
    }
}

/// A run that has ended stays where it is, however many steps follow.
pub proof fn lemma_final_stays(s: StateView, n: nat)
    requires
        is_final(s),
    ensures
        run_spec(s, n) == s,
    decreases n,
{
    if n > 0 {
        lemma_final_stays(s, (n - 1) as nat);
    }
}

/// A run of `a + b` steps is a run of `a` steps followed by one of `b`.
pub proof fn lemma_run_split(s: StateView, a: nat, b: nat)
    ensures
        run_spec(s, a + b) == run_spec(run_spec(s, a), b),
    decreases a,
{
    if a > 0 {
        lemma_run_split(step_spec(s), (a - 1) as nat, b);
    }
}

/// The state in which the evaluation of `expr` in `env` starts: its value
/// goes to the outermost continuation.
pub open spec fn start_spec(expr: ExprView, env: Seq<BindingView>) -> StateView {
    StateView::Eval { expr, env, kont: KontView::Halt }
}

/// The state in which a call of `callee` with `arguments` starts: the
/// outermost continuation is in slot 0 of the argument chain.
pub open spec fn call_spec(callee: CallableView, arguments: Seq<ValueView>) -> StateView {
    StateView::Invoke { callee, args: packed_spec(KontView::Halt, arguments) }
}

} // verus!
