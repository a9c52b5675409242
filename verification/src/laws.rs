//! What holds of every evaluation, stated over the machine's mathematical
//! form and proved.

use crate::adequacy::{theorem_call_ends, theorem_evaluation_ends};
use crate::direct::{apply_direct, eval_direct, Answer};
use crate::machine::{
    call_spec, chain_spec, chosen_branch, is_final, lemma_chain_round_trip, lemma_final_stays,
    lemma_run_split, lookup_spec, run_spec, start_spec, step_spec, wrapping_sum, EvalError,
    StateView,
};
use crate::printer::render_spec;
use crate::scope::{extended, initialiser_spec};
use crate::syntax::ExprView;
use crate::value::{BindingView, CallableView, KontView, ValueView};
use vstd::prelude::*;

verus! {

/// `(+ a b)` on two integer literals hands the sum of `a` and `b` to its
/// continuation, in five steps; the sum is the mathematical one wherever
/// that fits in 64 bits. Started with the outermost continuation, the
/// evaluation ends with that integer.
pub proof fn law_add_integers(a: i64, b: i64, env: Seq<BindingView>, kont: KontView)
    ensures
        run_spec(
            StateView::Eval {
                expr: ExprView::Add(Box::new(ExprView::Int(a)), Box::new(ExprView::Int(b))),
                env,
                kont,
            },
            5,
        ) == (StateView::Return { kont, value: ValueView::Integer(wrapping_sum(a, b)) }),
        forall|n: nat|
            n >= 6 ==> #[trigger] run_spec(
                start_spec(
                    ExprView::Add(Box::new(ExprView::Int(a)), Box::new(ExprView::Int(b))),
                    env,
                ),
                n,
            ) == StateView::Done(ValueView::Integer(wrapping_sum(a, b))),
        i64::MIN <= a + b <= i64::MAX ==> wrapping_sum(a, b) == a + b,
{
    reveal_with_fuel(run_spec, 7);
    let sum = ExprView::Add(Box::new(ExprView::Int(a)), Box::new(ExprView::Int(b)));
    let end = StateView::Done(ValueView::Integer(wrapping_sum(a, b)));
    assert(run_spec(start_spec(sum, env), 6) == end);
    assert forall|n: nat| n >= 6 implies #[trigger] run_spec(start_spec(sum, env), n) == end by {
        lemma_run_split(start_spec(sum, env), 6, (n - 6) as nat);
        lemma_final_stays(end, (n - 6) as nat);
    }
}

/// `(+ a "x")` on an integer literal and a text literal fails with
/// `TypeMismatch` at the fifth step, and at no point of the run is there a
/// result, numeric or other.
pub proof fn law_add_text_fails(a: i64, x: Seq<char>, env: Seq<BindingView>, n: nat)
    ensures
        !(run_spec(
            start_spec(ExprView::Add(Box::new(ExprView::Int(a)), Box::new(ExprView::Text(x))), env),
            n,
        ) is Done),
        n >= 5 ==> run_spec(
            start_spec(ExprView::Add(Box::new(ExprView::Int(a)), Box::new(ExprView::Text(x))), env),
            n,
        ) == StateView::Failed(EvalError::TypeMismatch),
{
    reveal_with_fuel(run_spec, 6);
    let start = start_spec(
        ExprView::Add(Box::new(ExprView::Int(a)), Box::new(ExprView::Text(x))),
        env,
    );
    let end = StateView::Failed(EvalError::TypeMismatch);
    assert(run_spec(start, 5) == end);
    if n >= 5 {
        lemma_run_split(start, 5, (n - 5) as nat);
        lemma_final_stays(end, (n - 5) as nat);
    }
}

/// The continuation of an `if` goes on with ELSE where the condition's value
/// is the boolean false, and with THEN for every other value. The branch
/// that was not chosen is in no part of the state that follows.
pub proof fn law_if_chooses(
    condition: ValueView,
    consequent: ExprView,
    otherwise: ExprView,
    env: Seq<BindingView>,
    next: KontView,
)
    ensures
        step_spec(
            StateView::Return {
                kont: KontView::Choose { consequent, otherwise, env, next: Box::new(next) },
                value: condition,
            },
        ) == (StateView::Eval {
            expr: chosen_branch(condition, consequent, otherwise),
            env,
            kont: next,
        }),
        condition == ValueView::Boolean(false) ==> chosen_branch(condition, consequent, otherwise)
            == otherwise,
        condition != ValueView::Boolean(false) ==> chosen_branch(condition, consequent, otherwise)
            == consequent,
{
}

/// `(if #f THEN ELSE)` evaluates ELSE with the continuation of the `if`,
/// whatever THEN and ELSE are.
pub proof fn law_if_false(
    consequent: ExprView,
    otherwise: ExprView,
    env: Seq<BindingView>,
    kont: KontView,
)
    ensures
        run_spec(
            StateView::Eval {
                expr: ExprView::If(
                    Box::new(ExprView::Bool(false)),
                    Box::new(consequent),
                    Box::new(otherwise),
                ),
                env,
                kont,
            },
            3,
        ) == (StateView::Eval { expr: otherwise, env, kont }),
{
    reveal_with_fuel(run_spec, 4);
}

/// `(if X THEN ELSE)` evaluates THEN with the continuation of the `if` where
/// X is the empty list, an integer literal (zero too), a text literal (the
/// empty one too) or the literal true.
pub proof fn law_if_truthy(
    condition: ExprView,
    consequent: ExprView,
    otherwise: ExprView,
    env: Seq<BindingView>,
    kont: KontView,
)
    requires
        condition is Nil || condition is Int || condition is Text || condition == ExprView::Bool(
            true,
        ),
    ensures
        run_spec(
            StateView::Eval {
                expr: ExprView::If(Box::new(condition), Box::new(consequent), Box::new(otherwise)),
                env,
                kont,
            },
            3,
        ) == (StateView::Eval { expr: consequent, env, kont }),
{
    reveal_with_fuel(run_spec, 4);
}

/// A closure made by `lambda` that is invoked with a number of arguments
/// other than the number of its parameters fails with `ArityMismatch`,
/// whatever stands in the continuation slot: no argument is dropped and none
/// is made up.
pub proof fn law_arity_mismatch(
    params: Seq<Seq<char>>,
    body: ExprView,
    env: Seq<BindingView>,
    slot: ValueView,
    arguments: Seq<ValueView>,
    n: nat,
)
    requires
        arguments.len() != params.len(),
        n >= 1,
    ensures
        run_spec(
            StateView::Invoke {
                callee: CallableView::Lambda { params, body: Box::new(body), env },
                args: ValueView::Pair(Box::new(slot), Box::new(chain_spec(arguments))),
            },
            n,
        ) == StateView::Failed(EvalError::ArityMismatch),
{
    lemma_chain_round_trip(arguments);
    let start = StateView::Invoke {
        callee: CallableView::Lambda { params, body: Box::new(body), env },
        args: ValueView::Pair(Box::new(slot), Box::new(chain_spec(arguments))),
    };
    assert(step_spec(start) == StateView::Failed(EvalError::ArityMismatch));
    lemma_final_stays(StateView::Failed(EvalError::ArityMismatch), (n - 1) as nat);
}

/// Whether the step from `s` hands a value to the outermost continuation.
pub open spec fn delivers(s: StateView) -> bool {
    s matches StateView::Return { kont: KontView::Halt, .. }
}

/// How often the outermost continuation receives a value in the first `n`
/// steps from `s`.
pub open spec fn deliveries(s: StateView, n: nat) -> nat
    decreases n,
{
    if n == 0 {
        0
    } else {
        deliveries(step_spec(s), (n - 1) as nat) + if delivers(s) {
            1nat
        } else {
            0nat
        }
    }
}

proof fn lemma_no_delivery_after_end(s: StateView, n: nat)
    requires
        is_final(s),
    ensures
        deliveries(s, n) == 0,
    decreases n,
{
    if n > 0 {
        lemma_no_delivery_after_end(s, (n - 1) as nat);
    }
}

/// In a run from a state that has no result yet, the outermost continuation
/// receives a value at most once, and it has received one exactly where the
/// run has ended with a result.
pub proof fn law_delivered_once(s: StateView, n: nat)
    requires
        !(s is Done),
    ensures
        deliveries(s, n) <= 1,
        deliveries(s, n) == 1 <==> run_spec(s, n) is Done,
    decreases n,
{
    if n > 0 {
        if delivers(s) {
            lemma_no_delivery_after_end(step_spec(s), (n - 1) as nat);
            lemma_final_stays(step_spec(s), (n - 1) as nat);
        } else {
            law_delivered_once(step_spec(s), (n - 1) as nat);
        }
    }
}

/// One activation of a closure, with the outermost continuation in slot 0 of
/// its argument chain: however long it runs, that continuation is invoked at
/// most once, and it has been invoked exactly where the activation has ended
/// with a result. Where the call means a value, the continuation has been
/// invoked exactly once as soon as the run is longer than the steps of the
/// verdict.
pub proof fn law_activation_delivers_once(
    callee: CallableView,
    arguments: Seq<ValueView>,
    depth: nat,
    n: nat,
)
    ensures
        deliveries(call_spec(callee, arguments), n) <= 1,
        deliveries(call_spec(callee, arguments), n) == 1 <==> run_spec(
            call_spec(callee, arguments),
            n,
        ) is Done,
        apply_direct(callee, arguments, depth).answer is Value && n > apply_direct(
            callee,
            arguments,
            depth,
        ).steps ==> deliveries(call_spec(callee, arguments), n) == 1,
        apply_direct(callee, arguments, depth).answer is Error ==> deliveries(
            call_spec(callee, arguments),
            n,
        ) == 0,
{
    let start = call_spec(callee, arguments);
    let verdict = apply_direct(callee, arguments, depth);
    law_delivered_once(start, n);
    theorem_call_ends(callee, arguments, depth, n);
    if verdict.answer is Error {
        if n < verdict.steps {
            theorem_call_ends(callee, arguments, depth, verdict.steps);
            law_delivered_once(start, verdict.steps);
            lemma_deliveries_grow(start, n, (verdict.steps - n) as nat);
        }
    }
}

proof fn lemma_deliveries_grow(s: StateView, a: nat, b: nat)
    ensures
        deliveries(s, a) <= deliveries(s, a + b),
    decreases a,
{
    if a > 0 {
        lemma_deliveries_grow(step_spec(s), (a - 1) as nat, b);
    }
}

/// `(if COND THEN ELSE)` means what ELSE means where COND means the boolean
/// false, and what THEN means where COND means any other value.
pub proof fn law_if_direct(
    condition: ExprView,
    consequent: ExprView,
    otherwise: ExprView,
    env: Seq<BindingView>,
    depth: nat,
    value: ValueView,
)
    requires
        eval_direct(condition, env, depth).answer == Answer::Value(value),
    ensures
        eval_direct(
            ExprView::If(Box::new(condition), Box::new(consequent), Box::new(otherwise)),
            env,
            depth,
        ).answer == eval_direct(chosen_branch(value, consequent, otherwise), env, depth).answer,
        value == ValueView::Boolean(false) ==> chosen_branch(value, consequent, otherwise)
            == otherwise,
        value != ValueView::Boolean(false) ==> chosen_branch(value, consequent, otherwise)
            == consequent,
{
}

/// A reference to a name whose slot holds `Undef` evaluates to `Undef`, which
/// prints as `<undefined>`.
pub proof fn law_undef_reference(env: Seq<BindingView>, name: Seq<char>, n: nat)
    requires
        lookup_spec(env, name) == Some(ValueView::Undef),
        n >= 2,
    ensures
        run_spec(start_spec(ExprView::Var(name), env), n) == StateView::Done(ValueView::Undef),
        render_spec(ValueView::Undef) == seq![
            '<',
            'u',
            'n',
            'd',
            'e',
            'f',
            'i',
            'n',
            'e',
            'd',
            '>',
        ],
{
    reveal_with_fuel(run_spec, 3);
    reveal_strlit("<undefined>");
    let start = start_spec(ExprView::Var(name), env);
    assert(run_spec(start, 2) == StateView::Done(ValueView::Undef));
    lemma_run_split(start, 2, (n - 2) as nat);
    lemma_final_stays(StateView::Done(ValueView::Undef), (n - 2) as nat);
    assert(render_spec(ValueView::Undef) =~= seq![
        '<',
        'u',
        'n',
        'd',
        'e',
        'f',
        'i',
        'n',
        'e',
        'd',
        '>',
    ]);
}

/// The initialiser of a name that is a bare reference to that name observes
/// the slot before it is filled: it evaluates to `Undef`.
pub proof fn law_self_reference(env: Seq<BindingView>, name: Seq<char>, n: nat)
    requires
        n >= 2,
    ensures
        run_spec(initialiser_spec(env, name, ExprView::Var(name)), n) == StateView::Done(
            ValueView::Undef,
        ),
{
    let inner = extended(env, name, ValueView::Undef);
    assert(lookup_spec(inner, name) == Some(ValueView::Undef));
    law_undef_reference(inner, name, n);
}

/// `(+ A B)`, where A means the integer `a` and B means the integer `b`,
/// means the sum of `a` and `b`, and a run that is long enough ends with it.
pub proof fn law_add_operands(
    lhs: ExprView,
    rhs: ExprView,
    env: Seq<BindingView>,
    depth: nat,
    a: i64,
    b: i64,
    fuel: nat,
)
    requires
        eval_direct(lhs, env, depth).answer == Answer::Value(ValueView::Integer(a)),
        eval_direct(rhs, env, depth).answer == Answer::Value(ValueView::Integer(b)),
    ensures
        eval_direct(ExprView::Add(Box::new(lhs), Box::new(rhs)), env, depth).answer
            == Answer::Value(ValueView::Integer(wrapping_sum(a, b))),
        fuel > eval_direct(ExprView::Add(Box::new(lhs), Box::new(rhs)), env, depth).steps
            ==> run_spec(start_spec(ExprView::Add(Box::new(lhs), Box::new(rhs)), env), fuel)
            == StateView::Done(ValueView::Integer(wrapping_sum(a, b))),
{
    theorem_evaluation_ends(ExprView::Add(Box::new(lhs), Box::new(rhs)), env, depth, fuel);
}

/// `(+ A B)` fails with `TypeMismatch` where A means a value that is no
/// integer, and where A means an integer and B a value that is none; a run
/// that is long enough ends with that failure.
pub proof fn law_add_other_fails(
    lhs: ExprView,
    rhs: ExprView,
    env: Seq<BindingView>,
    depth: nat,
    fuel: nat,
)
    requires
        eval_direct(lhs, env, depth).answer matches Answer::Value(x) && (!(x is Integer) || (
        eval_direct(rhs, env, depth).answer matches Answer::Value(y) && !(y is Integer))),
    ensures
        eval_direct(ExprView::Add(Box::new(lhs), Box::new(rhs)), env, depth).answer
            == Answer::<ValueView>::Error(EvalError::TypeMismatch),
        fuel >= eval_direct(ExprView::Add(Box::new(lhs), Box::new(rhs)), env, depth).steps
            ==> run_spec(start_spec(ExprView::Add(Box::new(lhs), Box::new(rhs)), env), fuel)
            == StateView::Failed(EvalError::TypeMismatch),
{
    theorem_evaluation_ends(ExprView::Add(Box::new(lhs), Box::new(rhs)), env, depth, fuel);
}

} // verus!
