//! The calling convention as an invariant of the machine.
//!
//! A program never gets hold of a continuation: it is passed in slot 0 of an
//! argument chain and goes from there into the frame that holds the body's
//! result. So in every state that an evaluation reaches, the continuation
//! slot of every chain that the machine built holds a continuation, and the
//! failure `MalformedContinuation` cannot come out of an evaluation.

use crate::machine::{
    bind_spec, chain_items, chain_spec, lookup_spec, run_spec, start_spec, step_spec, EvalError,
    StateView,
};
use crate::syntax::ExprView;
use crate::value::{BindingView, CallableView, KontView, ValueView};
use vstd::prelude::*;

verus! {

/// Whether a value is one that a program can hold: no continuation is part
/// of it, neither directly nor in what a closure in it has captured.
pub open spec fn plain_value(v: ValueView) -> bool
    decreases v,
{
    match v {
        ValueView::Pair(car, cdr) => plain_value(*car) && plain_value(*cdr),
        ValueView::Closure(callee) => plain_callable(callee),
        _ => true,
    }
}

/// Whether a closure was made by `lambda` in an environment of plain values.
pub open spec fn plain_callable(callee: CallableView) -> bool
    decreases callee,
{
    match callee {
        CallableView::Lambda { params, body, env } => plain_env(env),
        CallableView::Resume(_) => false,
    }
}

/// Whether every value that an environment binds is plain.
pub open spec fn plain_env(env: Seq<BindingView>) -> bool
    decreases env,
{
    forall|i: int| 0 <= i < env.len() ==> plain_value(#[trigger] env[i].value)
}

/// Whether every value of a sequence is plain.
pub open spec fn plain_values(values: Seq<ValueView>) -> bool {
    forall|i: int| 0 <= i < values.len() ==> plain_value(#[trigger] values[i])
}

/// Whether a continuation keeps the convention: what its frames hold is
/// plain, and the result of a closure's body goes to a continuation.
pub open spec fn sound_kont(kont: KontView) -> bool
    decreases kont,
{
    match kont {
        KontView::Halt => true,
        KontView::ConsCdr { cdr, env, next } => plain_env(env) && sound_kont(*next),
        KontView::ConsPair { car, next } => plain_value(car) && sound_kont(*next),
        KontView::AddRhs { rhs, env, next } => plain_env(env) && sound_kont(*next),
        KontView::AddSum { lhs, next } => sound_kont(*next),
        KontView::Choose { consequent, otherwise, env, next } => plain_env(env) && sound_kont(
            *next,
        ),
        KontView::Sequence { rest, at, env, next } => plain_env(env) && sound_kont(*next),
        KontView::Callee { args, env, next } => plain_env(env) && sound_kont(*next),
        KontView::Argument { callee, args, at, done, env, next } => plain_callable(callee)
            && plain_values(done) && plain_env(env) && sound_kont(*next),
        KontView::Reply { to } => match to {
            CallableView::Resume(next) => sound_kont(*next),
            _ => false,
        },
    }
}

/// Whether a state keeps the convention. An invocation does where a closure
/// made by `lambda` gets a chain with a continuation in slot 0 that ends in
/// `Nil`, or a continuation gets a chain of one value. A failure does unless
/// it is `MalformedContinuation`.
pub open spec fn sound_state(s: StateView) -> bool {
    match s {
        StateView::Eval { expr, env, kont } => plain_env(env) && sound_kont(kont),
        StateView::Return { kont, value } => sound_kont(kont) && plain_value(value),
        StateView::Invoke { callee, args } => match callee {
            CallableView::Lambda { .. } => plain_callable(callee) && (args matches ValueView::Pair(
                slot,
                rest,
            ) && (*slot matches ValueView::Closure(CallableView::Resume(next)) && sound_kont(*next)
                && plain_value(*rest) && chain_items(*rest) is Some)),
            CallableView::Resume(next) => sound_kont(*next) && (args matches ValueView::Pair(
                value,
                rest,
            ) && plain_value(*value) && *rest == ValueView::Nil),
        },
        StateView::Done(value) => plain_value(value),
        StateView::Failed(error) => error != EvalError::MalformedContinuation,
    }
}

/// What an environment of plain values binds to a name is plain.
pub proof fn lemma_lookup_plain(env: Seq<BindingView>, name: Seq<char>)
    requires
        plain_env(env),
    ensures
        lookup_spec(env, name) matches Some(value) ==> plain_value(value),
    decreases env.len(),
{
    if env.len() > 0 && env[0].name != name {
        let rest = env.drop_first();
        assert forall|i: int| 0 <= i < rest.len() implies plain_value(
            #[trigger] rest[i].value,
        ) by {
            assert(rest[i] == env[i + 1]);
        }
        lemma_lookup_plain(rest, name);
    }
}

/// An environment of plain values stays one when a plain value is bound in
/// it.
pub proof fn lemma_extended_plain(env: Seq<BindingView>, name: Seq<char>, value: ValueView)
    requires
        plain_env(env),
        plain_value(value),
    ensures
        plain_env(seq![BindingView { name, value }] + env),
{
    let longer = seq![BindingView { name, value }] + env;
    assert forall|i: int| 0 <= i < longer.len() implies plain_value(
        #[trigger] longer[i].value,
    ) by {
        if i > 0 {
            assert(longer[i] == env[i - 1]);
        }
    }
}

proof fn lemma_bind_plain(
    params: Seq<Seq<char>>,
    arguments: Seq<ValueView>,
    env: Seq<BindingView>,
)
    requires
        plain_env(env),
        plain_values(arguments),
    ensures
        plain_env(bind_spec(params, arguments, env)),
    decreases params.len(),
{
    if params.len() > 0 && arguments.len() > 0 {
        lemma_extended_plain(env, params[0], arguments[0]);
        let rest = arguments.drop_first();
        assert forall|i: int| 0 <= i < rest.len() implies plain_value(#[trigger] rest[i]) by {
            assert(rest[i] == arguments[i + 1]);
        }
        lemma_bind_plain(
            params.drop_first(),
            rest,
            seq![BindingView { name: params[0], value: arguments[0] }] + env,
        );
    }
}

proof fn lemma_items_plain(list: ValueView)
    requires
        plain_value(list),
    ensures
        chain_items(list) matches Some(items) ==> plain_values(items),
    decreases list,
{
    match list {
        ValueView::Pair(car, cdr) => {
            lemma_items_plain(*cdr);
            match chain_items(*cdr) {
                Some(rest) => {
                    let items = seq![*car] + rest;
                    assert forall|i: int| 0 <= i < items.len() implies plain_value(
                        #[trigger] items[i],
                    ) by {
                        if i > 0 {
                            assert(items[i] == rest[i - 1]);
                        }
                    }
                },
                None => {},
            }
        },
        _ => {},
    }
}

proof fn lemma_chain_plain(items: Seq<ValueView>)
    requires
        plain_values(items),
    ensures
        plain_value(chain_spec(items)),
        chain_items(chain_spec(items)) is Some,
    decreases items.len(),
{
    if items.len() > 0 {
        let rest = items.drop_first();
        assert forall|i: int| 0 <= i < rest.len() implies plain_value(#[trigger] rest[i]) by {
            assert(rest[i] == items[i + 1]);
        }
        lemma_chain_plain(rest);
    }
}

proof fn lemma_eval_sound(expr: ExprView, env: Seq<BindingView>, kont: KontView)
    requires
        plain_env(env),
        sound_kont(kont),
    ensures
        sound_state(step_spec(StateView::Eval { expr, env, kont })),
{
    let after = step_spec(StateView::Eval { expr, env, kont });
    match expr {
        ExprView::Var(name) => {
            lemma_lookup_plain(env, name);
        },
        ExprView::Lambda(params, body) => {
            let made = CallableView::Lambda { params, body, env };
            assert(plain_callable(made));
            assert(plain_value(ValueView::Closure(made)));
        },
        ExprView::Cons(a, b) => {
            assert(sound_state(after));
        },
        ExprView::Add(a, b) => {
            assert(sound_state(after));
        },
        ExprView::If(c, t, f) => {
            assert(sound_state(after));
        },
        ExprView::Begin(first, rest) => {
            assert(sound_state(after));
        },
        ExprView::Call(f, args) => {
            assert(sound_state(after));
        },
        _ => {
            assert(plain_value(ValueView::Nil));
        },
    }
}

proof fn lemma_return_sound(kont: KontView, value: ValueView)
    requires
        sound_kont(kont),
        plain_value(value),
    ensures
        sound_state(step_spec(StateView::Return { kont, value })),
{
    let after = step_spec(StateView::Return { kont, value });
    match kont {
        KontView::Callee { args, env, next } => {
            lemma_chain_plain(Seq::empty());
            match value {
                ValueView::Closure(callee) => {
                    assert(plain_callable(callee));
                    assert(callee is Lambda);
                    if args.len() == 0 {
                        assert(sound_state(after));
                    } else {
                        assert(plain_values(Seq::<ValueView>::empty()));
                        assert(sound_state(after));
                    }
                },
                _ => {},
            }
        },
        KontView::Argument { callee, args, at, done, env, next } => {
            assert(plain_values(done.push(value)));
            lemma_chain_plain(done.push(value));
            assert(callee is Lambda);
            assert(sound_state(after));
        },
        _ => {},
    }
}

proof fn lemma_invoke_sound(callee: CallableView, args: ValueView)
    requires
        sound_state(StateView::Invoke { callee, args }),
    ensures
        sound_state(step_spec(StateView::Invoke { callee, args })),
{
    match callee {
        CallableView::Lambda { params, body, env } => {
            match args {
                ValueView::Pair(slot, rest) => {
                    lemma_items_plain(*rest);
                    match chain_items(*rest) {
                        Some(arguments) => {
                            lemma_bind_plain(params, arguments, env);
                        },
                        None => {},
                    }
                },
                _ => {},
            }
        },
        CallableView::Resume(next) => {},
    }
}

/// One step keeps the convention.
pub proof fn lemma_step_sound(s: StateView)
    requires
        sound_state(s),
    ensures
        sound_state(step_spec(s)),
{
    match s {
        StateView::Eval { expr, env, kont } => {
            lemma_eval_sound(expr, env, kont);
        },
        StateView::Return { kont, value } => {
            lemma_return_sound(kont, value);
        },
        StateView::Invoke { callee, args } => {
            lemma_invoke_sound(callee, args);
        },
        StateView::Done(value) => {},
        StateView::Failed(error) => {},
    }
}

/// A run keeps the convention.
pub proof fn theorem_run_sound(s: StateView, n: nat)
    requires
        sound_state(s),
    ensures
        sound_state(run_spec(s, n)),
    decreases n,
{
    if n > 0 {
        lemma_step_sound(s);
        theorem_run_sound(step_spec(s), (n - 1) as nat);
    }
}

/// The evaluation of any expression in an environment of plain values never
/// fails with `MalformedContinuation`, and what it yields is plain.
pub proof fn theorem_continuations_well_formed(expr: ExprView, env: Seq<BindingView>, n: nat)
    requires
        plain_env(env),
    ensures
        run_spec(start_spec(expr, env), n) != StateView::Failed(EvalError::MalformedContinuation),
        run_spec(start_spec(expr, env), n) matches StateView::Done(value) ==> plain_value(value),
{
    theorem_run_sound(start_spec(expr, env), n);
}

} // verus!
