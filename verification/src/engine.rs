//! The evaluation machine in executable form: a work loop that makes one
//! control transfer at a time, so that the depth of the evaluated program
//! costs no native stack.

use crate::machine::{
    bind_spec, call_spec, chain_items, chain_spec, is_final, lemma_final_stays, lookup_spec,
    packed_spec, run_spec, start_spec, step_spec, EvalError, StateView,
};
use crate::shared::share;
use crate::syntax::{expr_view, names_view, Expr};
use crate::value::{
    callable_view, kont_view, value_view, values_view, Callable, Env, Kont, Value, ValueView,
};
use std::rc::Rc;
use vstd::prelude::*;

verus! {

/// A state of the machine.
pub enum State {
    /// `expr` is to be evaluated in `env`, and its value handed to `kont`.
    Eval { expr: Rc<Expr>, env: Rc<Env>, kont: Rc<Kont> },
    /// `value` is handed to `kont`.
    Return { kont: Rc<Kont>, value: Rc<Value> },
    /// `callee` is invoked with the argument chain `args`.
    Invoke { callee: Callable, args: Rc<Value> },
    /// The outermost continuation has received the result.
    Done(Rc<Value>),
    /// The evaluation was given up.
    Failed(EvalError),
}

impl View for State {
    type V = StateView;

    open spec fn view(&self) -> StateView {
        match *self {
            State::Eval { expr, env, kont } => StateView::Eval {
                expr: expr@,
                env: env@,
                kont: kont@,
            },
            State::Return { kont, value } => StateView::Return { kont: kont@, value: value@ },
            State::Invoke { callee, args } => StateView::Invoke { callee: callee@, args: args@ },
            State::Done(value) => StateView::Done(value@),
            State::Failed(error) => StateView::Failed(error),
        }
    }
}

impl Callable {
    /// A second handle on the same closure.
    pub fn duplicate(&self) -> (copy: Callable)
        ensures
            copy == *self,
    {
        match self {
            Callable::Lambda { params, body, env } => Callable::Lambda {
                params: share(params),
                body: share(body),
                env: share(env),
            },
            Callable::Resume(kont) => Callable::Resume(share(kont)),
        }
    }
}

/// The value that the innermost binding of `name` in `env` holds.
pub fn lookup(env: &Rc<Env>, name: &String) -> (found: Option<Rc<Value>>)
    ensures
        match found {
            Some(value) => lookup_spec(env@, name@) == Some(value@),
            None => lookup_spec(env@, name@) is None,
        },
{
    let mut cur: &Env = &**env;
    loop
        invariant
            lookup_spec(cur@, name@) == lookup_spec(env@, name@),
        decreases cur,
    {
        match cur {
            Env::Empty => {
                return None;
            },
            Env::Bind(bound, value, rest) => {
                assert(cur@.drop_first() =~= rest@);
                if *bound == *name {
                    return Some(share(value));
                }
                cur = &**rest;
            },
        }
    }
}

proof fn lemma_chain_of_suffix(items: Seq<ValueView>, i: int)
    requires
        0 <= i < items.len(),
    ensures
        chain_spec(items.subrange(i, items.len() as int)) == ValueView::Pair(
            Box::new(items[i]),
            Box::new(chain_spec(items.subrange(i + 1, items.len() as int))),
        ),
{
    let suffix = items.subrange(i, items.len() as int);
    assert(suffix.drop_first() =~= items.subrange(i + 1, items.len() as int));
}

/// The pair chain that holds `items` in order and ends in `Nil`.
pub fn chain(items: &Vec<Rc<Value>>) -> (list: Rc<Value>)
    ensures
        list@ == chain_spec(values_view(items@)),
{
    let ghost all = values_view(items@);
    let mut list = Rc::new(Value::Nil);
    let mut i: usize = items.len();
    assert(all.subrange(i as int, all.len() as int) =~= Seq::empty());
    while i > 0
        invariant
            i <= items.len(),
            all == values_view(items@),
            list@ == chain_spec(all.subrange(i as int, all.len() as int)),
        decreases i,
    {
        i = i - 1;
        proof {
            lemma_chain_of_suffix(all, i as int);
        }
        list = Rc::new(Value::Pair(share(&items[i]), list));
    }
    assert(all.subrange(0, all.len() as int) =~= all);
    list
}

/// The items of a pair chain that ends in `Nil`; `None` for another value.
pub fn unchain(list: &Rc<Value>) -> (found: Option<Vec<Rc<Value>>>)
    ensures
        match found {
            Some(items) => chain_items(list@) == Some(values_view(items@)),
            None => chain_items(list@) is None,
        },
{
    let mut items: Vec<Rc<Value>> = Vec::new();
    let mut cur: &Value = &**list;
    assert(values_view(items@) =~= Seq::empty());
    assert(Seq::<ValueView>::empty() + chain_items(cur@).unwrap() =~= chain_items(
        cur@,
    ).unwrap());
    loop
        invariant
            chain_items(list@) == match chain_items(cur@) {
                Some(rest) => Some(values_view(items@) + rest),
                None => None,
            },
        decreases cur,
    {
        match cur {
            Value::Nil => {
                assert(values_view(items@) + Seq::<ValueView>::empty() =~= values_view(items@));
                return Some(items);
            },
            Value::Pair(car, cdr) => {
                let ghost before = values_view(items@);
                items.push(share(car));
                assert(values_view(items@) =~= before.push(car@));
                assert forall|rest: Seq<ValueView>|
                    before + (seq![car@] + rest) == #[trigger] (before.push(car@) + rest) by {
                    assert(before + (seq![car@] + rest) =~= before.push(car@) + rest);
                }
                cur = &**cdr;
            },
            _ => {
                return None;
            },
        }
    }
}

/// `env` with each parameter bound to the argument at its place, a later
/// parameter inside an earlier one. Where the two differ in number, what is
/// left over of the longer is not bound.
pub fn bind(params: &Vec<String>, arguments: &Vec<Rc<Value>>, env: &Rc<Env>) -> (bound: Rc<Env>)
    ensures
        bound@ == bind_spec(names_view(params@), values_view(arguments@), env@),
{
    let ghost names = names_view(params@);
    let ghost values = values_view(arguments@);
    let mut bound = share(env);
    let mut i: usize = 0;
    assert(names.subrange(0, names.len() as int) =~= names);
    assert(values.subrange(0, values.len() as int) =~= values);
    while i < params.len() && i < arguments.len()
        invariant
            i <= params.len(),
            i <= arguments.len(),
            names == names_view(params@),
            values == values_view(arguments@),
            bind_spec(
                names.subrange(i as int, names.len() as int),
                values.subrange(i as int, values.len() as int),
                bound@,
            ) == bind_spec(names, values, env@),
        decreases params.len() - i,
    {
        proof {
            let ns = names.subrange(i as int, names.len() as int);
            let vs = values.subrange(i as int, values.len() as int);
            assert(ns.drop_first() =~= names.subrange(i + 1, names.len() as int));
            assert(vs.drop_first() =~= values.subrange(i + 1, values.len() as int));
        }
        bound = Rc::new(Env::Bind(params[i].clone(), share(&arguments[i]), bound));
        i = i + 1;
    }
    bound
}

/// `done` with `value` after its last item.
pub fn appended(done: &Vec<Rc<Value>>, value: &Rc<Value>) -> (longer: Vec<Rc<Value>>)
    ensures
        values_view(longer@) == values_view(done@).push(value@),
{
    let mut longer: Vec<Rc<Value>> = Vec::new();
    let mut i: usize = 0;
    while i < done.len()
        invariant
            i <= done.len(),
            longer.len() == i,
            forall|j: int| 0 <= j < i ==> longer@[j] == done@[j],
        decreases done.len() - i,
    {
        longer.push(share(&done[i]));
        i = i + 1;
    }
    longer.push(share(value));
    assert(values_view(longer@) =~= values_view(done@).push(value@));
    longer
}

/// The argument chain of a call: the continuation `kont` as a closure in slot
/// 0, then the arguments in order, then `Nil`.
pub fn packed(kont: &Rc<Kont>, arguments: &Vec<Rc<Value>>) -> (args: Rc<Value>)
    ensures
        args@ == packed_spec(kont@, values_view(arguments@)),
{
    proof {
        reveal_with_fuel(value_view, 3);
        reveal_with_fuel(callable_view, 3);
        reveal_with_fuel(kont_view, 3);
        reveal_with_fuel(expr_view, 2);
    }
    let slot = Rc::new(Value::Closure(Callable::Resume(share(kont))));
    Rc::new(Value::Pair(slot, chain(arguments)))
}

fn step_eval(expr: &Rc<Expr>, env: &Rc<Env>, kont: &Rc<Kont>) -> (next: State)
    ensures
        next@ == crate::machine::step_eval(expr@, env@, kont@),
{
    proof {
        reveal_with_fuel(value_view, 3);
        reveal_with_fuel(callable_view, 3);
        reveal_with_fuel(kont_view, 3);
        reveal_with_fuel(expr_view, 2);
    }
    match &**expr {
        Expr::Nil => State::Return { kont: share(kont), value: Rc::new(Value::Nil) },
        Expr::Int(n) => State::Return { kont: share(kont), value: Rc::new(Value::Integer(*n)) },
        Expr::Text(s) => State::Return {
            kont: share(kont),
            value: Rc::new(Value::Text(s.clone())),
        },
        Expr::Bool(b) => State::Return { kont: share(kont), value: Rc::new(Value::Boolean(*b)) },
        Expr::Var(name) => match lookup(env, name) {
            Some(value) => State::Return { kont: share(kont), value },
            None => State::Failed(EvalError::UnboundName),
        },
        Expr::Cons(a, b) => State::Eval {
            expr: share(a),
            env: share(env),
            kont: Rc::new(Kont::ConsCdr { cdr: share(b), env: share(env), next: share(kont) }),
        },
        Expr::Add(a, b) => State::Eval {
            expr: share(a),
            env: share(env),
            kont: Rc::new(Kont::AddRhs { rhs: share(b), env: share(env), next: share(kont) }),
        },
        Expr::If(c, t, f) => State::Eval {
            expr: share(c),
            env: share(env),
            kont: Rc::new(
                Kont::Choose {
                    consequent: share(t),
                    otherwise: share(f),
                    env: share(env),
                    next: share(kont),
                },
            ),
        },
        Expr::Lambda(params, body) => State::Return {
            kont: share(kont),
            value: Rc::new(
                Value::Closure(
                    Callable::Lambda { params: share(params), body: share(body), env: share(env) },
                ),
            ),
        },
        Expr::Begin(first, rest) => if rest.len() == 0 {
            State::Eval { expr: share(first), env: share(env), kont: share(kont) }
        } else {
            State::Eval {
                expr: share(first),
                env: share(env),
                kont: Rc::new(
                    Kont::Sequence { rest: share(rest), at: 0, env: share(env), next: share(kont) },
                ),
            }
        },
        Expr::Call(f, args) => State::Eval {
            expr: share(f),
            env: share(env),
            kont: Rc::new(Kont::Callee { args: share(args), env: share(env), next: share(kont) }),
        },
    }
}

fn step_return(kont: &Rc<Kont>, value: Rc<Value>) -> (next: State)
    ensures
        next@ == crate::machine::step_return(kont@, value@),
{
    proof {
        reveal_with_fuel(value_view, 3);
        reveal_with_fuel(callable_view, 3);
        reveal_with_fuel(kont_view, 3);
        reveal_with_fuel(expr_view, 2);
    }
    match &**kont {
        Kont::Halt => State::Done(value),
        Kont::ConsCdr { cdr, env, next } => State::Eval {
            expr: share(cdr),
            env: share(env),
            kont: Rc::new(Kont::ConsPair { car: value, next: share(next) }),
        },
        Kont::ConsPair { car, next } => State::Return {
            kont: share(next),
            value: Rc::new(Value::Pair(share(car), value)),
        },
        Kont::AddRhs { rhs, env, next } => match &*value {
            Value::Integer(lhs) => State::Eval {
                expr: share(rhs),
                env: share(env),
                kont: Rc::new(Kont::AddSum { lhs: *lhs, next: share(next) }),
            },
            _ => State::Failed(EvalError::TypeMismatch),
        },
        Kont::AddSum { lhs, next } => match &*value {
            Value::Integer(rhs) => State::Return {
                kont: share(next),
                value: Rc::new(Value::Integer(lhs.wrapping_add(*rhs))),
            },
            _ => State::Failed(EvalError::TypeMismatch),
        },
        Kont::Choose { consequent, otherwise, env, next } => {
            let refused = match &*value {
                Value::Boolean(b) => !*b,
                _ => false,
            };
            if refused {
                State::Eval { expr: share(otherwise), env: share(env), kont: share(next) }
            } else {
                State::Eval { expr: share(consequent), env: share(env), kont: share(next) }
            }
        },
        Kont::Sequence { rest, at, env, next } => {
            let at: usize = *at;
            if at < rest.len() && at + 1 < rest.len() {
                State::Eval {
                    expr: share(&rest[at]),
                    env: share(env),
                    kont: Rc::new(
                        Kont::Sequence {
                            rest: share(rest),
                            at: at + 1,
                            env: share(env),
                            next: share(next),
                        },
                    ),
                }
            } else if at < rest.len() {
                State::Eval { expr: share(&rest[at]), env: share(env), kont: share(next) }
            } else {
                State::Return { kont: share(next), value }
            }
        },
        Kont::Callee { args, env, next } => match &*value {
            Value::Closure(callee) => if args.len() == 0 {
                let none: Vec<Rc<Value>> = Vec::new();
                assert(values_view(none@) =~= Seq::empty());
                State::Invoke { callee: callee.duplicate(), args: packed(next, &none) }
            } else {
                let done: Vec<Rc<Value>> = Vec::new();
                assert(values_view(done@) =~= Seq::empty());
                State::Eval {
                    expr: share(&args[0]),
                    env: share(env),
                    kont: Rc::new(
                        Kont::Argument {
                            callee: callee.duplicate(),
                            args: share(args),
                            at: 0,
                            done,
                            env: share(env),
                            next: share(next),
                        },
                    ),
                }
            },
            _ => State::Failed(EvalError::NotCallable),
        },
        Kont::Argument { callee, args, at, done, env, next } => {
            let at: usize = *at;
            let done = appended(done, &value);
            if at < args.len() && at + 1 < args.len() {
                State::Eval {
                    expr: share(&args[at + 1]),
                    env: share(env),
                    kont: Rc::new(
                        Kont::Argument {
                            callee: callee.duplicate(),
                            args: share(args),
                            at: at + 1,
                            done,
                            env: share(env),
                            next: share(next),
                        },
                    ),
                }
            } else {
                State::Invoke { callee: callee.duplicate(), args: packed(next, &done) }
            }
        },
        Kont::Reply { to } => State::Invoke {
            callee: to.duplicate(),
            args: Rc::new(Value::Pair(value, Rc::new(Value::Nil))),
        },
    }
}

fn step_invoke(callee: &Callable, args: &Rc<Value>) -> (next: State)
    ensures
        next@ == crate::machine::step_invoke(callee@, args@),
{
    proof {
        reveal_with_fuel(value_view, 3);
        reveal_with_fuel(callable_view, 3);
        reveal_with_fuel(kont_view, 3);
        reveal_with_fuel(expr_view, 2);
    }
    match callee {
        Callable::Lambda { params, body, env } => match &**args {
            Value::Pair(slot, rest) => match unchain(rest) {
                Some(arguments) => if arguments.len() != params.len() {
                    State::Failed(EvalError::ArityMismatch)
                } else {
                    match &**slot {
                        Value::Closure(to) => State::Eval {
                            expr: share(body),
                            env: bind(&**params, &arguments, env),
                            kont: Rc::new(Kont::Reply { to: to.duplicate() }),
                        },
                        _ => State::Failed(EvalError::MalformedContinuation),
                    }
                },
                None => State::Failed(EvalError::ArityMismatch),
            },
            _ => State::Failed(EvalError::ArityMismatch),
        },
        Callable::Resume(kont) => match &**args {
            Value::Pair(value, rest) => match &**rest {
                Value::Nil => State::Return { kont: share(kont), value: share(value) },
                _ => State::Failed(EvalError::ArityMismatch),
            },
            _ => State::Failed(EvalError::ArityMismatch),
        },
    }
}

impl State {
    /// Whether the run has ended, with a result or with a failure.
    pub fn finished(&self) -> (ended: bool)
        ensures
            ended == is_final(self@),
    {
        match self {
            State::Done(_) => true,
            State::Failed(_) => true,
            _ => false,
        }
    }

    /// One control transfer.
    pub fn step(self) -> (next: State)
        ensures
            next@ == step_spec(self@),
    {
        match self {
            State::Eval { expr, env, kont } => step_eval(&expr, &env, &kont),
            State::Return { kont, value } => step_return(&kont, value),
            State::Invoke { callee, args } => step_invoke(&callee, &args),
            State::Done(value) => State::Done(value),
            State::Failed(error) => State::Failed(error),
        }
    }
}

/// How a bounded run ended.
pub enum Outcome {
    /// The outermost continuation received this value.
    Value(Rc<Value>),
    /// The evaluation was given up.
    Error(EvalError),
    /// The steps ran out first; the run can go on from this state.
    Unfinished(State),
}

/// The outcome that stands for a state: its result, its failure, or the
/// state itself while the run has not ended.
pub open spec fn outcome_spec(s: StateView) -> OutcomeView {
    match s {
        StateView::Done(value) => OutcomeView::Value(value),
        StateView::Failed(error) => OutcomeView::Error(error),
        _ => OutcomeView::Unfinished(s),
    }
}

/// The mathematical form of an outcome.
pub enum OutcomeView {
    Value(ValueView),
    Error(EvalError),
    Unfinished(StateView),
}

impl View for Outcome {
    type V = OutcomeView;

    open spec fn view(&self) -> OutcomeView {
        match *self {
            Outcome::Value(value) => OutcomeView::Value(value@),
            Outcome::Error(error) => OutcomeView::Error(error),
            Outcome::Unfinished(state) => OutcomeView::Unfinished(state@),
        }
    }
}

impl State {
    /// The state in which the evaluation of `expr` in `env` starts.
    pub fn start(expr: &Rc<Expr>, env: &Rc<Env>) -> (state: State)
        ensures
            state@ == start_spec(expr@, env@),
    {
        proof {
            reveal_with_fuel(kont_view, 2);
        }
        State::Eval { expr: share(expr), env: share(env), kont: Rc::new(Kont::Halt) }
    }

    /// The state in which a call of `callee` with `arguments` starts.
    pub fn call(callee: &Callable, arguments: &Vec<Rc<Value>>) -> (state: State)
        ensures
            state@ == call_spec(callee@, values_view(arguments@)),
    {
        proof {
            reveal_with_fuel(kont_view, 2);
        }
        let halt = Rc::new(Kont::Halt);
        State::Invoke { callee: callee.duplicate(), args: packed(&halt, arguments) }
    }

    /// Runs the work loop for at most `fuel` steps. The loop stops early
    /// where the run has ended: further steps would change nothing.
    pub fn run(self, fuel: u64) -> (end: State)
        ensures
            end@ == run_spec(self@, fuel as nat),
    {
        let mut state = self;
        let mut left: u64 = fuel;
        while left > 0 && !state.finished()
            invariant
                run_spec(state@, left as nat) == run_spec(self@, fuel as nat),
            decreases left,
        {
            state = state.step();
            left = left - 1;
        }
        proof {
            if left > 0 {
                lemma_final_stays(state@, left as nat);
            }
        }
        state
    }

    /// The outcome that stands for this state.
    pub fn outcome(self) -> (outcome: Outcome)
        ensures
            outcome@ == outcome_spec(self@),
    {
        match self {
            State::Done(value) => Outcome::Value(value),
            State::Failed(error) => Outcome::Error(error),
            other => Outcome::Unfinished(other),
        }
    }
}

/// Evaluates `expr` in `env` for at most `fuel` steps.
pub fn evaluate(expr: &Rc<Expr>, env: &Rc<Env>, fuel: u64) -> (outcome: Outcome)
    ensures
        outcome@ == outcome_spec(run_spec(start_spec(expr@, env@), fuel as nat)),
{
    State::start(expr, env).run(fuel).outcome()
}

/// Calls `callee` with `arguments` for at most `fuel` steps.
pub fn call(callee: &Callable, arguments: &Vec<Rc<Value>>, fuel: u64) -> (outcome: Outcome)
    ensures
        outcome@ == outcome_spec(
            run_spec(call_spec(callee@, values_view(arguments@)), fuel as nat),
        ),
{
    State::call(callee, arguments).run(fuel).outcome()
}

} // verus!
