//! The machine against the direct meaning: from the evaluation of an
//! expression, with any continuation, the machine hands the value that the
//! expression means to that continuation, or fails as the meaning says.

use crate::direct::{
    apply_direct, arguments_direct, entry_spec, eval_direct, statements_direct, Answer, Verdict,
};
use crate::machine::{
    bind_spec, call_spec, chain_spec, chosen_branch, lemma_chain_round_trip, lemma_final_stays,
    lemma_run_split, packed_spec, run_spec, start_spec, step_spec, StateView,
};
use crate::syntax::ExprView;
use crate::value::{BindingView, CallableView, KontView, ValueView};
use vstd::prelude::*;

verus! {

/// Whether the machine, started in `start`, has the answer of `verdict`
/// after the steps of `verdict`: the value handed to `kont`, or the failure.
/// Where nothing is said, nothing is asked.
pub open spec fn arrives(start: StateView, verdict: Verdict<ValueView>, kont: KontView) -> bool {
    match verdict.answer {
        Answer::Value(value) => run_spec(start, verdict.steps) == (StateView::Return {
            kont,
            value,
        }),
        Answer::Error(error) => run_spec(start, verdict.steps) == StateView::Failed(error),
        Answer::Undetermined => true,
    }
}

proof fn lemma_join(s0: StateView, a: nat, s1: StateView, b: nat, s2: StateView)
    requires
        run_spec(s0, a) == s1,
        run_spec(s1, b) == s2,
    ensures
        run_spec(s0, a + b) == s2,
{
    lemma_run_split(s0, a, b);
}

proof fn lemma_one(s0: StateView, s1: StateView)
    requires
        step_spec(s0) == s1,
    ensures
        run_spec(s0, 1) == s1,
{
    reveal_with_fuel(run_spec, 2);
}

/// The continuation of a closure's body: the result goes to `kont`, as a
/// chain of one.
pub open spec fn reply_to(kont: KontView) -> KontView {
    KontView::Reply { to: CallableView::Resume(Box::new(kont)) }
}

proof fn lemma_call_from_body(
    callee: CallableView,
    arguments: Seq<ValueView>,
    depth: nat,
    kont: KontView,
)
    requires
        depth > 0 ==> match entry_spec(callee, arguments) {
            Answer::Value((body, inner)) => arrives(
                StateView::Eval { expr: body, env: inner, kont: reply_to(kont) },
                eval_direct(body, inner, (depth - 1) as nat),
                reply_to(kont),
            ),
            _ => true,
        },
    ensures
        arrives(
            StateView::Invoke { callee, args: packed_spec(kont, arguments) },
            apply_direct(callee, arguments, depth),
            kont,
        ),
{
    let s0 = StateView::Invoke { callee, args: packed_spec(kont, arguments) };
    lemma_chain_round_trip(arguments);
    lemma_one(s0, step_spec(s0));
    match callee {
        CallableView::Lambda { params, body, env } => {
            if arguments.len() == params.len() && depth > 0 {
                let to = CallableView::Resume(Box::new(kont));
                let k1 = reply_to(kont);
                let inner = bind_spec(params, arguments, env);
                let s1 = StateView::Eval { expr: *body, env: inner, kont: k1 };
                assert(step_spec(s0) == s1);
                let result = eval_direct(*body, inner, (depth - 1) as nat);
                match result.answer {
                    Answer::Value(r) => {
                        let s2 = StateView::Return { kont: k1, value: r };
                        lemma_join(s0, 1, s1, result.steps, s2);
                        let s3 = StateView::Invoke {
                            callee: to,
                            args: ValueView::Pair(Box::new(r), Box::new(ValueView::Nil)),
                        };
                        lemma_one(s2, s3);
                        lemma_join(s0, 1 + result.steps, s2, 1, s3);
                        let s4 = StateView::Return { kont, value: r };
                        lemma_one(s3, s4);
                        lemma_join(s0, 2 + result.steps, s3, 1, s4);
                    },
                    Answer::Error(error) => {
                        lemma_join(s0, 1, s1, result.steps, StateView::Failed(error));
                    },
                    Answer::Undetermined => {},
                }
            }
        },
        CallableView::Resume(_) => {
            if arguments.len() != 0 {
                assert(chain_spec(arguments) != ValueView::Nil);
            }
        },
    }
}

proof fn lemma_cons_arrives(
    a: ExprView,
    b: ExprView,
    env: Seq<BindingView>,
    depth: nat,
    kont: KontView,
)
    requires
        arrives(
            StateView::Eval {
                expr: a,
                env,
                kont: KontView::ConsCdr { cdr: b, env, next: Box::new(kont) },
            },
            eval_direct(a, env, depth),
            KontView::ConsCdr { cdr: b, env, next: Box::new(kont) },
        ),
        eval_direct(a, env, depth).answer matches Answer::Value(x) ==> arrives(
            StateView::Eval {
                expr: b,
                env,
                kont: KontView::ConsPair { car: x, next: Box::new(kont) },
            },
            eval_direct(b, env, depth),
            KontView::ConsPair { car: x, next: Box::new(kont) },
        ),
    ensures
        arrives(
            StateView::Eval { expr: ExprView::Cons(Box::new(a), Box::new(b)), env, kont },
            eval_direct(ExprView::Cons(Box::new(a), Box::new(b)), env, depth),
            kont,
        ),
{
    let s0 = StateView::Eval { expr: ExprView::Cons(Box::new(a), Box::new(b)), env, kont };
    let next = Box::new(kont);
    let k1 = KontView::ConsCdr { cdr: b, env, next };
    let s1 = StateView::Eval { expr: a, env, kont: k1 };
    lemma_one(s0, s1);
    let car = eval_direct(a, env, depth);
    match car.answer {
        Answer::Value(x) => {
            let s2 = StateView::Return { kont: k1, value: x };
            lemma_join(s0, 1, s1, car.steps, s2);
            let k2 = KontView::ConsPair { car: x, next };
            let s3 = StateView::Eval { expr: b, env, kont: k2 };
            lemma_one(s2, s3);
            lemma_join(s0, 1 + car.steps, s2, 1, s3);
            let cdr = eval_direct(b, env, depth);
            match cdr.answer {
                Answer::Value(y) => {
                    let s4 = StateView::Return { kont: k2, value: y };
                    lemma_join(s0, 2 + car.steps, s3, cdr.steps, s4);
                    lemma_one(s4, step_spec(s4));
                    lemma_join(s0, 2 + car.steps + cdr.steps, s4, 1, step_spec(s4));
                },
                Answer::Error(error) => {
                    lemma_join(s0, 2 + car.steps, s3, cdr.steps, StateView::Failed(error));
                },
                Answer::Undetermined => {},
            }
        },
        Answer::Error(error) => {
            lemma_join(s0, 1, s1, car.steps, StateView::Failed(error));
        },
        Answer::Undetermined => {},
    }
}

proof fn lemma_add_arrives(
    a: ExprView,
    b: ExprView,
    env: Seq<BindingView>,
    depth: nat,
    kont: KontView,
)
    requires
        arrives(
            StateView::Eval {
                expr: a,
                env,
                kont: KontView::AddRhs { rhs: b, env, next: Box::new(kont) },
            },
            eval_direct(a, env, depth),
            KontView::AddRhs { rhs: b, env, next: Box::new(kont) },
        ),
        eval_direct(a, env, depth).answer matches Answer::Value(ValueView::Integer(x)) ==> arrives(
            StateView::Eval {
                expr: b,
                env,
                kont: KontView::AddSum { lhs: x, next: Box::new(kont) },
            },
            eval_direct(b, env, depth),
            KontView::AddSum { lhs: x, next: Box::new(kont) },
        ),
    ensures
        arrives(
            StateView::Eval { expr: ExprView::Add(Box::new(a), Box::new(b)), env, kont },
            eval_direct(ExprView::Add(Box::new(a), Box::new(b)), env, depth),
            kont,
        ),
{
    let s0 = StateView::Eval { expr: ExprView::Add(Box::new(a), Box::new(b)), env, kont };
    let next = Box::new(kont);
    let k1 = KontView::AddRhs { rhs: b, env, next };
    let s1 = StateView::Eval { expr: a, env, kont: k1 };
    lemma_one(s0, s1);
    let lhs = eval_direct(a, env, depth);
    match lhs.answer {
        Answer::Value(vx) => {
            let s2 = StateView::Return { kont: k1, value: vx };
            lemma_join(s0, 1, s1, lhs.steps, s2);
            lemma_one(s2, step_spec(s2));
            lemma_join(s0, 1 + lhs.steps, s2, 1, step_spec(s2));
            match vx {
                ValueView::Integer(x) => {
                    let k2 = KontView::AddSum { lhs: x, next };
                    let s3 = StateView::Eval { expr: b, env, kont: k2 };
                    let rhs = eval_direct(b, env, depth);
                    match rhs.answer {
                        Answer::Value(vy) => {
                            let s4 = StateView::Return { kont: k2, value: vy };
                            lemma_join(s0, 2 + lhs.steps, s3, rhs.steps, s4);
                            lemma_one(s4, step_spec(s4));
                            lemma_join(s0, 2 + lhs.steps + rhs.steps, s4, 1, step_spec(s4));
                        },
                        Answer::Error(error) => {
                            lemma_join(
                                s0,
                                2 + lhs.steps,
                                s3,
                                rhs.steps,
                                StateView::Failed(error),
                            );
                        },
                        Answer::Undetermined => {},
                    }
                },
                _ => {},
            }
        },
        Answer::Error(error) => {
            lemma_join(s0, 1, s1, lhs.steps, StateView::Failed(error));
        },
        Answer::Undetermined => {},
    }
}

proof fn lemma_if_arrives(
    c: ExprView,
    t: ExprView,
    f: ExprView,
    env: Seq<BindingView>,
    depth: nat,
    kont: KontView,
)
    requires
        arrives(
            StateView::Eval {
                expr: c,
                env,
                kont: KontView::Choose { consequent: t, otherwise: f, env, next: Box::new(kont) },
            },
            eval_direct(c, env, depth),
            KontView::Choose { consequent: t, otherwise: f, env, next: Box::new(kont) },
        ),
        eval_direct(c, env, depth).answer matches Answer::Value(v) ==> arrives(
            StateView::Eval { expr: chosen_branch(v, t, f), env, kont },
            eval_direct(chosen_branch(v, t, f), env, depth),
            kont,
        ),
    ensures
        arrives(
            StateView::Eval {
                expr: ExprView::If(Box::new(c), Box::new(t), Box::new(f)),
                env,
                kont,
            },
            eval_direct(ExprView::If(Box::new(c), Box::new(t), Box::new(f)), env, depth),
            kont,
        ),
{
    let s0 = StateView::Eval {
        expr: ExprView::If(Box::new(c), Box::new(t), Box::new(f)),
        env,
        kont,
    };
    let k1 = KontView::Choose { consequent: t, otherwise: f, env, next: Box::new(kont) };
    let s1 = StateView::Eval { expr: c, env, kont: k1 };
    lemma_one(s0, s1);
    let condition = eval_direct(c, env, depth);
    match condition.answer {
        Answer::Value(v) => {
            let s2 = StateView::Return { kont: k1, value: v };
            lemma_join(s0, 1, s1, condition.steps, s2);
            let branch = chosen_branch(v, t, f);
            let s3 = StateView::Eval { expr: branch, env, kont };
            lemma_one(s2, s3);
            lemma_join(s0, 1 + condition.steps, s2, 1, s3);
            let chosen = eval_direct(branch, env, depth);
            lemma_run_split(s0, 2 + condition.steps, chosen.steps);
        },
        Answer::Error(error) => {
            lemma_join(s0, 1, s1, condition.steps, StateView::Failed(error));
        },
        Answer::Undetermined => {},
    }
}

/// The continuation of the first statement of a `begin`: that of the `begin`
/// where the statement is the only one, and else the frame that runs the
/// others.
pub open spec fn after_first(
    rest: Seq<ExprView>,
    env: Seq<BindingView>,
    kont: KontView,
) -> KontView {
    if rest.len() == 0 {
        kont
    } else {
        KontView::Sequence { rest, at: 0, env, next: Box::new(kont) }
    }
}

proof fn lemma_begin_arrives(
    first: ExprView,
    rest: Seq<ExprView>,
    env: Seq<BindingView>,
    depth: nat,
    kont: KontView,
)
    requires
        arrives(
            StateView::Eval { expr: first, env, kont: after_first(rest, env, kont) },
            eval_direct(first, env, depth),
            after_first(rest, env, kont),
        ),
        rest.len() > 0 ==> (eval_direct(first, env, depth).answer matches Answer::Value(v)
            ==> arrives(
            StateView::Return { kont: after_first(rest, env, kont), value: v },
            statements_direct(rest, 0, env, depth),
            kont,
        )),
    ensures
        arrives(
            StateView::Eval { expr: ExprView::Begin(Box::new(first), rest), env, kont },
            eval_direct(ExprView::Begin(Box::new(first), rest), env, depth),
            kont,
        ),
{
    let s0 = StateView::Eval { expr: ExprView::Begin(Box::new(first), rest), env, kont };
    let head = eval_direct(first, env, depth);
    let k1 = after_first(rest, env, kont);
    let s1 = StateView::Eval { expr: first, env, kont: k1 };
    lemma_one(s0, s1);
    if rest.len() == 0 {
        lemma_run_split(s0, 1, head.steps);
    } else {
        match head.answer {
            Answer::Value(v) => {
                let s2 = StateView::Return { kont: k1, value: v };
                lemma_join(s0, 1, s1, head.steps, s2);
                let tail = statements_direct(rest, 0, env, depth);
                lemma_run_split(s0, 1 + head.steps, tail.steps);
            },
            Answer::Error(error) => {
                lemma_join(s0, 1, s1, head.steps, StateView::Failed(error));
            },
            Answer::Undetermined => {},
        }
    }
}

/// Where the machine stands once the function position of a call has given
/// the closure `callee`: at the first argument, or at the invocation where
/// there is none.
pub open spec fn after_callee(
    callee: CallableView,
    args: Seq<ExprView>,
    env: Seq<BindingView>,
    kont: KontView,
) -> StateView {
    if args.len() == 0 {
        StateView::Invoke { callee, args: packed_spec(kont, Seq::empty()) }
    } else {
        StateView::Eval {
            expr: args[0],
            env,
            kont: KontView::Argument {
                callee,
                args,
                at: 0,
                done: Seq::empty(),
                env,
                next: Box::new(kont),
            },
        }
    }
}

proof fn lemma_call_expr_arrives(
    f: ExprView,
    args: Seq<ExprView>,
    env: Seq<BindingView>,
    depth: nat,
    kont: KontView,
)
    requires
        arrives(
            StateView::Eval {
                expr: f,
                env,
                kont: KontView::Callee { args, env, next: Box::new(kont) },
            },
            eval_direct(f, env, depth),
            KontView::Callee { args, env, next: Box::new(kont) },
        ),
        eval_direct(f, env, depth).answer matches Answer::Value(ValueView::Closure(callee))
            ==> match arguments_direct(args, 0, env, depth).answer {
            Answer::Value(values) => run_spec(
                after_callee(callee, args, env, kont),
                arguments_direct(args, 0, env, depth).steps,
            ) == (StateView::Invoke { callee, args: packed_spec(kont, values) }) && arrives(
                StateView::Invoke { callee, args: packed_spec(kont, values) },
                apply_direct(callee, values, depth),
                kont,
            ),
            Answer::Error(error) => run_spec(
                after_callee(callee, args, env, kont),
                arguments_direct(args, 0, env, depth).steps,
            ) == StateView::Failed(error),
            Answer::Undetermined => true,
        },
    ensures
        arrives(
            StateView::Eval { expr: ExprView::Call(Box::new(f), args), env, kont },
            eval_direct(ExprView::Call(Box::new(f), args), env, depth),
            kont,
        ),
{
    let s0 = StateView::Eval { expr: ExprView::Call(Box::new(f), args), env, kont };
    let k1 = KontView::Callee { args, env, next: Box::new(kont) };
    let s1 = StateView::Eval { expr: f, env, kont: k1 };
    lemma_one(s0, s1);
    let function = eval_direct(f, env, depth);
    match function.answer {
        Answer::Value(vf) => {
            let s2 = StateView::Return { kont: k1, value: vf };
            lemma_join(s0, 1, s1, function.steps, s2);
            let s3 = step_spec(s2);
            lemma_one(s2, s3);
            lemma_join(s0, 1 + function.steps, s2, 1, s3);
            match vf {
                ValueView::Closure(callee) => {
                    assert(s3 == after_callee(callee, args, env, kont));
                    let gathered = arguments_direct(args, 0, env, depth);
                    match gathered.answer {
                        Answer::Value(values) => {
                            let s4 = StateView::Invoke { callee, args: packed_spec(kont, values) };
                            lemma_join(s0, 2 + function.steps, s3, gathered.steps, s4);
                            let applied = apply_direct(callee, values, depth);
                            lemma_run_split(
                                s0,
                                2 + function.steps + gathered.steps,
                                applied.steps,
                            );
                        },
                        Answer::Error(error) => {
                            lemma_join(
                                s0,
                                2 + function.steps,
                                s3,
                                gathered.steps,
                                StateView::Failed(error),
                            );
                        },
                        Answer::Undetermined => {},
                    }
                },
                _ => {},
            }
        },
        Answer::Error(error) => {
            lemma_join(s0, 1, s1, function.steps, StateView::Failed(error));
        },
        Answer::Undetermined => {},
    }
}

/// The machine arrives at every answer of the direct meaning: from the
/// evaluation of `expr` in `env` with any continuation `kont`, it hands the
/// value to `kont`, or fails with the failure, after the steps of the
/// verdict.
pub proof fn theorem_machine_arrives(
    expr: ExprView,
    env: Seq<BindingView>,
    depth: nat,
    kont: KontView,
)
    ensures
        arrives(StateView::Eval { expr, env, kont }, eval_direct(expr, env, depth), kont),
    decreases depth, expr, 0nat,
{
    let s0 = StateView::Eval { expr, env, kont };
    let next = Box::new(kont);
    match expr {
        ExprView::Cons(a, b) => {
            theorem_machine_arrives(*a, env, depth, KontView::ConsCdr { cdr: *b, env, next });
            match eval_direct(*a, env, depth).answer {
                Answer::Value(x) => {
                    theorem_machine_arrives(*b, env, depth, KontView::ConsPair { car: x, next });
                },
                _ => {},
            }
            lemma_cons_arrives(*a, *b, env, depth, kont);
        },
        ExprView::Add(a, b) => {
            theorem_machine_arrives(*a, env, depth, KontView::AddRhs { rhs: *b, env, next });
            match eval_direct(*a, env, depth).answer {
                Answer::Value(ValueView::Integer(x)) => {
                    theorem_machine_arrives(*b, env, depth, KontView::AddSum { lhs: x, next });
                },
                _ => {},
            }
            lemma_add_arrives(*a, *b, env, depth, kont);
        },
        ExprView::If(c, t, f) => {
            theorem_machine_arrives(
                *c,
                env,
                depth,
                KontView::Choose { consequent: *t, otherwise: *f, env, next },
            );
            match eval_direct(*c, env, depth).answer {
                Answer::Value(v) => {
                    theorem_machine_arrives(chosen_branch(v, *t, *f), env, depth, kont);
                },
                _ => {},
            }
            lemma_if_arrives(*c, *t, *f, env, depth, kont);
        },
        ExprView::Begin(first, rest) => {
            theorem_machine_arrives(*first, env, depth, after_first(rest, env, kont));
            if rest.len() > 0 {
                match eval_direct(*first, env, depth).answer {
                    Answer::Value(v) => {
                        lemma_statements_arrive(rest, 0, v, env, depth, kont);
                    },
                    _ => {},
                }
            }
            lemma_begin_arrives(*first, rest, env, depth, kont);
        },
        ExprView::Call(f, args) => {
            theorem_machine_arrives(*f, env, depth, KontView::Callee { args, env, next });
            match eval_direct(*f, env, depth).answer {
                Answer::Value(ValueView::Closure(callee)) => {
                    if args.len() > 0 {
                        lemma_arguments_arrive(args, 0, Seq::empty(), callee, env, depth, kont);
                    } else {
                        reveal_with_fuel(run_spec, 1);
                    }
                    match arguments_direct(args, 0, env, depth).answer {
                        Answer::Value(values) => {
                            assert(Seq::<ValueView>::empty() + values =~= values);
                            match entry_spec(callee, values) {
                                Answer::Value((body, inner)) => {
                                    if depth > 0 {
                                        theorem_machine_arrives(
                                            body,
                                            inner,
                                            (depth - 1) as nat,
                                            reply_to(kont),
                                        );
                                    }
                                },
                                _ => {},
                            }
                            lemma_call_from_body(callee, values, depth, kont);
                        },
                        _ => {},
                    }
                },
                _ => {},
            }
            lemma_call_expr_arrives(*f, args, env, depth, kont);
        },
        _ => {
            lemma_one(s0, step_spec(s0));
        },
    }
}

proof fn lemma_statements_arrive(
    rest: Seq<ExprView>,
    at: nat,
    previous: ValueView,
    env: Seq<BindingView>,
    depth: nat,
    kont: KontView,
)
    requires
        at < rest.len(),
    ensures
        arrives(
            StateView::Return {
                kont: KontView::Sequence { rest, at, env, next: Box::new(kont) },
                value: previous,
            },
            statements_direct(rest, at, env, depth),
            kont,
        ),
    decreases depth, rest, rest.len() - at,
{
    let frame = KontView::Sequence { rest, at, env, next: Box::new(kont) };
    let s0 = StateView::Return { kont: frame, value: previous };
    let head = eval_direct(rest[at as int], env, depth);
    if at + 1 == rest.len() {
        let s1 = StateView::Eval { expr: rest[at as int], env, kont };
        lemma_one(s0, s1);
        theorem_machine_arrives(rest[at as int], env, depth, kont);
        lemma_run_split(s0, 1, head.steps);
    } else {
        let k1 = KontView::Sequence { rest, at: at + 1, env, next: Box::new(kont) };
        let s1 = StateView::Eval { expr: rest[at as int], env, kont: k1 };
        lemma_one(s0, s1);
        theorem_machine_arrives(rest[at as int], env, depth, k1);
        match head.answer {
            Answer::Value(v) => {
                let s2 = StateView::Return { kont: k1, value: v };
                lemma_join(s0, 1, s1, head.steps, s2);
                let tail = statements_direct(rest, at + 1, env, depth);
                lemma_statements_arrive(rest, at + 1, v, env, depth, kont);
                lemma_run_split(s0, 1 + head.steps, tail.steps);
            },
            Answer::Error(error) => {
                lemma_join(s0, 1, s1, head.steps, StateView::Failed(error));
            },
            Answer::Undetermined => {},
        }
    }
}

proof fn lemma_arguments_arrive(
    args: Seq<ExprView>,
    at: nat,
    done: Seq<ValueView>,
    callee: CallableView,
    env: Seq<BindingView>,
    depth: nat,
    kont: KontView,
)
    requires
        at < args.len(),
    ensures
        match arguments_direct(args, at, env, depth).answer {
            Answer::Value(values) => run_spec(
                StateView::Eval {
                    expr: args[at as int],
                    env,
                    kont: KontView::Argument { callee, args, at, done, env, next: Box::new(kont) },
                },
                arguments_direct(args, at, env, depth).steps,
            ) == (StateView::Invoke { callee, args: packed_spec(kont, done + values) }),
            Answer::Error(error) => run_spec(
                StateView::Eval {
                    expr: args[at as int],
                    env,
                    kont: KontView::Argument { callee, args, at, done, env, next: Box::new(kont) },
                },
                arguments_direct(args, at, env, depth).steps,
            ) == StateView::Failed(error),
            Answer::Undetermined => true,
        },
    decreases depth, args, args.len() - at,
{
    let frame = KontView::Argument { callee, args, at, done, env, next: Box::new(kont) };
    let s0 = StateView::Eval { expr: args[at as int], env, kont: frame };
    let head = eval_direct(args[at as int], env, depth);
    theorem_machine_arrives(args[at as int], env, depth, frame);
    match head.answer {
        Answer::Value(v) => {
            let s1 = StateView::Return { kont: frame, value: v };
            let s2 = step_spec(s1);
            lemma_one(s1, s2);
            lemma_join(s0, head.steps, s1, 1, s2);
            let tail = arguments_direct(args, at + 1, env, depth);
            if at + 1 < args.len() {
                lemma_arguments_arrive(args, at + 1, done.push(v), callee, env, depth, kont);
                match tail.answer {
                    Answer::Value(values) => {
                        assert(done.push(v) + values =~= done + (seq![v] + values));
                        lemma_run_split(s0, head.steps + 1, tail.steps);
                    },
                    Answer::Error(error) => {
                        lemma_run_split(s0, head.steps + 1, tail.steps);
                    },
                    Answer::Undetermined => {},
                }
            } else {
                assert(done.push(v) =~= done + (seq![v] + Seq::<ValueView>::empty()));
            }
        },
        Answer::Error(error) => {},
        Answer::Undetermined => {},
    }
}

/// The machine arrives at every answer of the direct meaning of a call: from
/// the invocation of `callee` with the argument chain that holds `kont` in
/// slot 0 and then `arguments`, it hands the result to `kont`, or fails.
pub proof fn theorem_call_arrives(
    callee: CallableView,
    arguments: Seq<ValueView>,
    depth: nat,
    kont: KontView,
)
    ensures
        arrives(
            StateView::Invoke { callee, args: packed_spec(kont, arguments) },
            apply_direct(callee, arguments, depth),
            kont,
        ),
{
    match entry_spec(callee, arguments) {
        Answer::Value((body, inner)) => {
            if depth > 0 {
                theorem_machine_arrives(body, inner, (depth - 1) as nat, reply_to(kont));
            }
        },
        _ => {},
    }
    lemma_call_from_body(callee, arguments, depth, kont);
}

/// How a run from `start` ends where the machine arrives at `verdict` with
/// the outermost continuation: with the value, one step after the verdict's
/// steps, or with the failure.
pub open spec fn ends(start: StateView, verdict: Verdict<ValueView>, fuel: nat) -> bool {
    match verdict.answer {
        Answer::Value(value) => fuel > verdict.steps ==> run_spec(start, fuel) == StateView::Done(
            value,
        ),
        Answer::Error(error) => fuel >= verdict.steps ==> run_spec(start, fuel)
            == StateView::Failed(error),
        Answer::Undetermined => true,
    }
}

proof fn lemma_arrival_ends(start: StateView, verdict: Verdict<ValueView>, fuel: nat)
    requires
        arrives(start, verdict, KontView::Halt),
    ensures
        ends(start, verdict, fuel),
{
    match verdict.answer {
        Answer::Value(value) => {
            if fuel > verdict.steps {
                let s1 = StateView::Return { kont: KontView::Halt, value };
                let s2 = StateView::Done(value);
                lemma_one(s1, s2);
                lemma_join(start, verdict.steps, s1, 1, s2);
                lemma_run_split(start, verdict.steps + 1, (fuel - verdict.steps - 1) as nat);
                lemma_final_stays(s2, (fuel - verdict.steps - 1) as nat);
            }
        },
        Answer::Error(error) => {
            if fuel >= verdict.steps {
                lemma_run_split(start, verdict.steps, (fuel - verdict.steps) as nat);
                lemma_final_stays(StateView::Failed(error), (fuel - verdict.steps) as nat);
            }
        },
        Answer::Undetermined => {},
    }
}

/// An evaluation that is run for long enough ends as the direct meaning
/// says: with the value, or with the failure.
pub proof fn theorem_evaluation_ends(
    expr: ExprView,
    env: Seq<BindingView>,
    depth: nat,
    fuel: nat,
)
    ensures
        ends(start_spec(expr, env), eval_direct(expr, env, depth), fuel),
{
    theorem_machine_arrives(expr, env, depth, KontView::Halt);
    lemma_arrival_ends(start_spec(expr, env), eval_direct(expr, env, depth), fuel);
}

/// A call that is run for long enough ends as the direct meaning says.
pub proof fn theorem_call_ends(
    callee: CallableView,
    arguments: Seq<ValueView>,
    depth: nat,
    fuel: nat,
)
    ensures
        ends(call_spec(callee, arguments), apply_direct(callee, arguments, depth), fuel),
{
    theorem_call_arrives(callee, arguments, depth, KontView::Halt);
    lemma_arrival_ends(call_spec(callee, arguments), apply_direct(callee, arguments, depth), fuel);
}

/// The bound on the depth decides only whether an answer is given, never
/// which: two answers to one question, under two bounds, are the same.
pub proof fn theorem_one_answer(expr: ExprView, env: Seq<BindingView>, d1: nat, d2: nat)
    requires
        !(eval_direct(expr, env, d1).answer is Undetermined),
        !(eval_direct(expr, env, d2).answer is Undetermined),
    ensures
        eval_direct(expr, env, d1).answer == eval_direct(expr, env, d2).answer,
{
    let v1 = eval_direct(expr, env, d1);
    let v2 = eval_direct(expr, env, d2);
    let fuel = v1.steps + v2.steps + 1;
    theorem_evaluation_ends(expr, env, d1, fuel);
    theorem_evaluation_ends(expr, env, d2, fuel);
}

} // verus!
