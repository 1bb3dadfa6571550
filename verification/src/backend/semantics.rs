//! What an expression evaluates to: substitution of arguments for
//! parameters, and evaluation against the values of the names that the
//! expression reads.
use crate::backend::dependency::{all_ids, par_names, step_read, traversable};
use crate::backend::message::{EvalError, Value};
use crate::frontend::meerast::{Binop, Step, Term, Uop};
use vstd::prelude::*;

verus! {

/// What a worker knows of the names it reads: for each, the last value
/// received, if any.
pub type Env = Map<Seq<char>, Option<Value>>;

/// What stands for each parameter, for as many arguments as parameters: the
/// argument at the same place. Where a name occurs twice among the
/// parameters, the later one counts.
pub open spec fn bindings(pars: Seq<Term>, args: Seq<Term>) -> Map<Seq<char>, Term>
    decreases pars.len(),
{
    if pars.len() == 0 || args.len() == 0 {
        Map::empty()
    } else {
        bindings(pars.drop_last(), args.drop_last()).insert(pars.last()->ident, args.last())
    }
}

/// The term with each free identifier that `m` binds replaced by what `m`
/// gives for it. Under a lambda, the names of its parameters are no longer
/// replaced. The destination of an assignment is left as it is.
pub open spec fn subst(t: Term, m: Map<Seq<char>, Term>) -> Term
    decreases t,
{
    match t {
        Term::Id { ident } => if m.contains_key(ident) {
            m[ident]
        } else {
            t
        },
        Term::Int { .. } => t,
        Term::Bool { .. } => t,
        Term::Action { stmts } => Term::Action { stmts: subst_steps(stmts, m) },
        Term::Member { .. } => t,
        Term::Apply { fun, args } => Term::Apply {
            fun: Box::new(subst(*fun, m)),
            args: subst_all(args, m),
        },
        Term::Bop { opd1, opd2, bop } => Term::Bop {
            opd1: Box::new(subst(*opd1, m)),
            opd2: Box::new(subst(*opd2, m)),
            bop,
        },
        Term::Uop { opd, uop } => Term::Uop { opd: Box::new(subst(*opd, m)), uop },
        Term::If { cond, then, elze } => Term::If {
            cond: Box::new(subst(*cond, m)),
            then: Box::new(subst(*then, m)),
            elze: Box::new(subst(*elze, m)),
        },
        Term::Lambda { pars, body } => Term::Lambda {
            pars,
            body: Box::new(subst(*body, m.remove_keys(par_names(pars)))),
        },
    }
}

/// The substitution applied to each term of a list.
pub open spec fn subst_all(ts: Seq<Term>, m: Map<Seq<char>, Term>) -> Seq<Term>
    decreases ts,
{
    Seq::new(
        ts.len(),
        |i: int|
            if 0 <= i < ts.len() {
                subst(ts[i], m)
            } else {
                Term::Int { val: 0 }
            },
    )
}

/// The substitution applied to what each step of a list reads.
pub open spec fn subst_steps(ss: Seq<Step>, m: Map<Seq<char>, Term>) -> Seq<Step>
    decreases ss,
{
    Seq::new(
        ss.len(),
        |i: int|
            if 0 <= i < ss.len() {
                match ss[i] {
                    Step::Do { act } => Step::Do { act: subst(act, m) },
                    Step::Ass { dst, src } => Step::Ass { dst, src: subst(src, m) },
                }
            } else {
                Step::Do { act: Term::Int { val: 0 } }
            },
    )
}

/// `fun` is a lambda whose parameters are identifiers, as many as there are
/// arguments.
pub open spec fn callable(fun: Term, args: Seq<Term>) -> bool {
    &&& fun is Lambda
    &&& all_ids(fun->pars)
    &&& fun->pars.len() == args.len()
}

/// `fun` can be applied to `args`: it is a lambda whose parameters are
/// identifiers, as many as there are arguments, and whose body can be walked
/// as a whole.
pub open spec fn applicable(fun: Term, args: Seq<Term>) -> bool {
    callable(fun, args) && traversable(*fun->body)
}

/// The body of a lambda.
pub open spec fn body_of(fun: Term) -> Term {
    *fun->body
}

/// The body of `fun` with the arguments in place of the parameters.
pub open spec fn apply(fun: Term, args: Seq<Term>) -> Term {
    subst(*fun->body, bindings(fun->pars, args))
}

/// The integer fits the machine's 32-bit integers.
pub open spec fn fits(i: int) -> bool {
    i32::MIN <= i <= i32::MAX
}

/// The quotient of `a` by `b`, rounded towards zero.
pub open spec fn quotient(a: int, b: int) -> int
    recommends
        b != 0,
{
    if a >= 0 && b > 0 {
        a / b
    } else if a < 0 && b < 0 {
        (-a) / (-b)
    } else if a < 0 {
        -((-a) / b)
    } else {
        -(a / (-b))
    }
}

/// An integer as a value, where it fits.
pub open spec fn int_value(i: int) -> Option<Value> {
    if fits(i) {
        Some(Value::Int(i))
    } else {
        None
    }
}

/// What a binary operator gives for two values. There is no result where an
/// operand is of the wrong kind, where the divisor is zero, and where the
/// result does not fit.
pub open spec fn bop_value(bop: Binop, a: Value, b: Value) -> Option<Value> {
    match bop {
        Binop::Add => match (a, b) {
            (Value::Int(x), Value::Int(y)) => int_value(x + y),
            _ => None,
        },
        Binop::Sub => match (a, b) {
            (Value::Int(x), Value::Int(y)) => int_value(x - y),
            _ => None,
        },
        Binop::Mul => match (a, b) {
            (Value::Int(x), Value::Int(y)) => int_value(x * y),
            _ => None,
        },
        Binop::Div => match (a, b) {
            (Value::Int(x), Value::Int(y)) => if y == 0 {
                None
            } else {
                int_value(quotient(x, y))
            },
            _ => None,
        },
        Binop::Eq => match (a, b) {
            (Value::Int(x), Value::Int(y)) => Some(Value::Bool(x == y)),
            _ => None,
        },
        Binop::Lt => match (a, b) {
            (Value::Int(x), Value::Int(y)) => Some(Value::Bool(x < y)),
            _ => None,
        },
        Binop::Gt => match (a, b) {
            (Value::Int(x), Value::Int(y)) => Some(Value::Bool(x > y)),
            _ => None,
        },
        Binop::And => match (a, b) {
            (Value::Bool(x), Value::Bool(y)) => Some(Value::Bool(x && y)),
            _ => None,
        },
        Binop::Or => match (a, b) {
            (Value::Bool(x), Value::Bool(y)) => Some(Value::Bool(x || y)),
            _ => None,
        },
    }
}

/// What a unary operator gives for a value.
pub open spec fn uop_value(uop: Uop, a: Value) -> Option<Value> {
    match uop {
        Uop::Neg => match a {
            Value::Int(x) => int_value(-x),
            _ => None,
        },
        Uop::Not => match a {
            Value::Bool(x) => Some(Value::Bool(!x)),
            _ => None,
        },
    }
}

/// The term holds a member access where it is walked: anywhere but in the
/// destination of an assignment.
pub open spec fn mentions_member(t: Term) -> bool
    decreases t,
{
    match t {
        Term::Id { .. } => false,
        Term::Int { .. } => false,
        Term::Bool { .. } => false,
        Term::Action { stmts } => exists|i: int|
            0 <= i < stmts.len() && mentions_member(step_read(#[trigger] stmts[i])),
        Term::Member { .. } => true,
        Term::Apply { fun, args } => mentions_member(*fun) || exists|i: int|
            0 <= i < args.len() && mentions_member(#[trigger] args[i]),
        Term::Bop { opd1, opd2, .. } => mentions_member(*opd1) || mentions_member(*opd2),
        Term::Uop { opd, .. } => mentions_member(*opd),
        Term::If { cond, then, elze } => mentions_member(*cond) || mentions_member(*then)
            || mentions_member(*elze),
        Term::Lambda { body, .. } => mentions_member(*body),
    }
}

/// How an evaluation ends: with a value, or with the finding that the
/// expression needs a capability that there is not.
pub type Outcome = Result<Value, EvalError>;

/// How the evaluation of `t` in `env` ends, with at most `fuel` applications
/// nested in one another; `None` where it faults or needs more.
///
/// - A name has the value that `env` holds for it; a literal, an action
///   block and a lambda are their own values.
/// - A member access is unsupported. So is the application of a lambda
///   whose body holds one.
/// - An operator is applied to the values of its operands, the left one
///   first; a conditional to the value of its condition and then to that of
///   the one branch that the condition selects.
/// - An application has the value of the body of the lambda with the
///   arguments in place of the parameters.
///
/// It faults on a name without a value, on an operator applied to a value of
/// the wrong kind, on a division by zero, on a result that does not fit, and
/// on an application of anything but a lambda to as many arguments as it
/// has parameters.
pub open spec fn eval(t: Term, env: Env, fuel: nat) -> Option<Outcome>
    decreases fuel, t,
{
    match t {
        Term::Id { ident } => if env.contains_key(ident) {
            match env[ident] {
                Some(v) => Some(Ok(v)),
                None => None,
            }
        } else {
            None
        },
        Term::Int { val } => Some(Ok(Value::Int(val))),
        Term::Bool { val } => Some(Ok(Value::Bool(val))),
        Term::Action { .. } => Some(Ok(Value::Action(t))),
        Term::Member { .. } => Some(Err(EvalError::UnsupportedCapability)),
        Term::Apply { fun, args } => if callable(*fun, args) {
            if mentions_member(body_of(*fun)) {
                Some(Err(EvalError::UnsupportedCapability))
            } else if fuel > 0 && applicable(*fun, args) {
                eval(apply(*fun, args), env, (fuel - 1) as nat)
            } else {
                None
            }
        } else {
            None
        },
        Term::Bop { opd1, opd2, bop } => match eval(*opd1, env, fuel) {
            Some(Ok(a)) => match eval(*opd2, env, fuel) {
                Some(Ok(b)) => match bop_value(bop, a, b) {
                    Some(v) => Some(Ok(v)),
                    None => None,
                },
                other => other,
            },
            other => other,
        },
        Term::Uop { opd, uop } => match eval(*opd, env, fuel) {
            Some(Ok(a)) => match uop_value(uop, a) {
                Some(v) => Some(Ok(v)),
                None => None,
            },
            other => other,
        },
        Term::If { cond, then, elze } => match eval(*cond, env, fuel) {
            Some(Ok(Value::Bool(b))) => if b {
                eval(*then, env, fuel)
            } else {
                eval(*elze, env, fuel)
            },
            Some(Ok(_)) => None,
            other => other,
        },
        Term::Lambda { .. } => Some(Ok(Value::Lambda(t))),
    }
}

/// The evaluation of `t` in `env` ends.
pub open spec fn settles(t: Term, env: Env) -> bool {
    exists|fuel: nat| eval(t, env, fuel) is Some
}

/// How the evaluation of `t` in `env` ends, where it does.
pub open spec fn outcome(t: Term, env: Env) -> Outcome
    recommends
        settles(t, env),
{
    eval(t, env, choose|fuel: nat| eval(t, env, fuel) is Some)->0
}

/// The evaluation of `t` in `env` ends with a value.
pub open spec fn evaluates(t: Term, env: Env) -> bool {
    settles(t, env) && outcome(t, env) is Ok
}

/// The value of `t` in `env`, where its evaluation ends with one.
pub open spec fn value_of(t: Term, env: Env) -> Value
    recommends
        evaluates(t, env),
{
    outcome(t, env)->Ok_0
}

/// More fuel does not change how an evaluation ends.
pub proof fn lemma_eval_monotone(t: Term, env: Env, fuel: nat, more: nat)
    requires
        eval(t, env, fuel) is Some,
        fuel <= more,
    ensures
        eval(t, env, more) == eval(t, env, fuel),
    decreases fuel, t,
{
    match t {
        Term::Apply { fun, args } => {
            if !mentions_member(body_of(*fun)) {
                lemma_eval_monotone(apply(*fun, args), env, (fuel - 1) as nat, (more - 1) as nat);
            }
        },
        Term::Bop { opd1, opd2, bop } => {
            lemma_eval_monotone(*opd1, env, fuel, more);
            if eval(*opd1, env, fuel) matches Some(Ok(_)) {
                lemma_eval_monotone(*opd2, env, fuel, more);
            }
        },
        Term::Uop { opd, uop } => {
            lemma_eval_monotone(*opd, env, fuel, more);
        },
        Term::If { cond, then, elze } => {
            lemma_eval_monotone(*cond, env, fuel, more);
            if eval(*cond, env, fuel) == Some(Ok::<Value, EvalError>(Value::Bool(true))) {
                lemma_eval_monotone(*then, env, fuel, more);
            } else if eval(*cond, env, fuel) == Some(Ok::<Value, EvalError>(Value::Bool(false))) {
                lemma_eval_monotone(*elze, env, fuel, more);
            }
        },
        _ => {},
    }
}

/// Evaluation is a function of the term and the values it reads: whatever
/// fuel lets it end gives the one outcome.
pub proof fn lemma_outcome(t: Term, env: Env, fuel: nat)
    requires
        eval(t, env, fuel) is Some,
    ensures
        settles(t, env),
        eval(t, env, fuel) == Some(outcome(t, env)),
{
    let f = choose|f: nat| eval(t, env, f) is Some;
    if f <= fuel {
        lemma_eval_monotone(t, env, f, fuel);
    } else {
        lemma_eval_monotone(t, env, fuel, f);
    }
}

/// Recomputing over unchanged inputs yields an identical value: two
/// evaluations of one term against the same values, whatever fuel each ends
/// with, end the same way.
pub proof fn lemma_eval_deterministic(t: Term, env: Env, fuel1: nat, fuel2: nat)
    requires
        eval(t, env, fuel1) is Some,
        eval(t, env, fuel2) is Some,
    ensures
        eval(t, env, fuel1) == eval(t, env, fuel2),
{
    if fuel1 <= fuel2 {
        lemma_eval_monotone(t, env, fuel1, fuel2);
    } else {
        lemma_eval_monotone(t, env, fuel2, fuel1);
    }
}

} // verus!
