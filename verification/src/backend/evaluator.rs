//! The evaluator that a worker runs to compute its value.
use crate::backend::dependency::{
    all_ids, are_all_ids, is_traversable, par_name_set, par_names, step_read, traversable,
};
use crate::backend::message::{shown, shown_if_any, EvalError, Val, Value};
use crate::backend::semantics::{
    applicable, apply, bindings, bop_value, eval, lemma_outcome, mentions_member, outcome,
    settles, subst, subst_all, subst_steps, uop_value,
};
use crate::backend::worker::Worker;
use crate::frontend::meerast::{
    clone_expr, clone_exprs, steps_view, terms_of, Binop, Expr, SglStmt, Stmt, Term, Uop,
};
use crate::names::{NameMap, NameSet};
use vstd::prelude::*;

verus! {

/// The replica of a worker: for each name that it reads, the last value
/// received from the worker of that name, if any.
pub type Replica = NameMap<Option<Val>>;

/// A name that no parameter binds is not bound.
pub proof fn lemma_bindings_absent(pars: Seq<Term>, args: Seq<Term>, n: Seq<char>)
    requires
        pars.len() == args.len(),
        forall|j: int| 0 <= j < pars.len() ==> (#[trigger] pars[j])->ident != n,
    ensures
        !bindings(pars, args).contains_key(n),
    decreases pars.len(),
{
    if pars.len() > 0 {
        assert(pars.last() == pars[pars.len() - 1]);
        assert forall|j: int| 0 <= j < pars.drop_last().len() implies (
        #[trigger] pars.drop_last()[j])->ident != n by {
            assert(pars.drop_last()[j] == pars[j]);
        }
        lemma_bindings_absent(pars.drop_last(), args.drop_last(), n);
    }
}

/// A name is bound to the argument at the place of the last parameter that
/// binds it.
pub proof fn lemma_bindings_last(pars: Seq<Term>, args: Seq<Term>, n: Seq<char>, i: int)
    requires
        pars.len() == args.len(),
        0 <= i < pars.len(),
        pars[i]->ident == n,
        forall|j: int| i < j < pars.len() ==> (#[trigger] pars[j])->ident != n,
    ensures
        bindings(pars, args).contains_key(n),
        bindings(pars, args)[n] == args[i],
    decreases pars.len(),
{
    if i < pars.len() - 1 {
        assert(pars.last() == pars[pars.len() - 1]);
        assert(pars.drop_last()[i] == pars[i]);
        assert forall|j: int| i < j < pars.drop_last().len() implies (
        #[trigger] pars.drop_last()[j])->ident != n by {
            assert(pars.drop_last()[j] == pars[j]);
        }
        lemma_bindings_last(pars.drop_last(), args.drop_last(), n, i);
        assert(args.drop_last()[i] == args[i]);
    }
}

/// The place of the argument that stands for `name`, if a parameter binds it.
pub fn find_binding(pars: &Vec<Expr>, args: &Vec<Expr>, name: &String) -> (r: Option<usize>)
    requires
        pars@.len() == args@.len(),
        all_ids(terms_of(pars@)),
    ensures
        r is Some <==> bindings(terms_of(pars@), terms_of(args@)).contains_key(name@),
        r matches Some(i) ==> i < args@.len() && bindings(terms_of(pars@), terms_of(args@))[name@]
            == args@[i as int]@,
{
    let ghost ps = terms_of(pars@);
    let ghost ts = terms_of(args@);
    let mut i: usize = pars.len();
    while i > 0
        invariant
            i <= pars@.len(),
            pars@.len() == args@.len(),
            ps == terms_of(pars@),
            ts == terms_of(args@),
            all_ids(ps),
            forall|j: int| i <= j < ps.len() ==> (#[trigger] ps[j])->ident != name@,
        decreases i,
    {
        i -= 1;
        match &pars[i] {
            Expr::IdExpr { ident } => {
                assert(ps[i as int] == (Term::Id { ident: ident@ }));
                if *ident == *name {
                    proof {
                        lemma_bindings_last(ps, ts, name@, i as int);
                        assert(ts[i as int] == args@[i as int]@);
                    }
                    return Some(i);
                }
            },
            _ => {
                assert(ps[i as int] is Id);
            },
        }
    }
    proof {
        lemma_bindings_absent(ps, ts, name@);
    }
    None
}

/// What stands for each parameter, but for the names in `hidden`.
pub open spec fn visible(pars: Seq<Expr>, args: Seq<Expr>, hidden: Set<Seq<char>>) -> Map<
    Seq<char>,
    Term,
> {
    bindings(terms_of(pars), terms_of(args)).remove_keys(hidden)
}

/// The expression with each free identifier that a parameter binds replaced
/// by the argument at the parameter's place; the names in `hidden` are left
/// alone.
pub fn subst_expr(expr: &Expr, pars: &Vec<Expr>, args: &Vec<Expr>, hidden: &NameSet) -> (r: Expr)
    requires
        traversable(expr@),
        pars@.len() == args@.len(),
        all_ids(terms_of(pars@)),
        hidden.wf(),
    ensures
        r@ == subst(expr@, visible(pars@, args@, hidden@)),
    decreases expr,
{
    let ghost m = visible(pars@, args@, hidden@);
    match expr {
        Expr::IdExpr { ident } => {
            if hidden.contains(ident) {
                clone_expr(expr)
            } else {
                match find_binding(pars, args, ident) {
                    Some(i) => clone_expr(&args[i]),
                    None => clone_expr(expr),
                }
            }
        },
        Expr::IntConst { .. } => clone_expr(expr),
        Expr::BoolConst { .. } => clone_expr(expr),
        Expr::Action { stmt } => match stmt {
            Stmt::Stmt { sgl_stmts } => {
                proof {
                    let stmts = stmt@;
                    assert(stmts =~= steps_view(sgl_stmts@));
                    assert forall|i: int| 0 <= i < sgl_stmts@.len() implies traversable(
                        step_read(#[trigger] sgl_stmts@[i]@),
                    ) by {
                        assert(stmts[i] == sgl_stmts@[i]@);
                        assert(traversable(step_read(stmts[i])));
                    }
                }
                let out = subst_stmts(sgl_stmts, pars, args, hidden);
                let ghost steps = steps_view(out@);
                let block = Stmt::Stmt { sgl_stmts: out };
                proof {
                    assert(block@ =~= steps);
                }
                let r = Expr::Action { stmt: block };
                proof {
                    assert(r@ == Term::Action { stmts: block@ });
                }
                r
            },
        },
        Expr::Member { .. } => clone_expr(expr),
        Expr::Apply { fun, args: operands } => {
            proof {
                let t = expr@;
                assert(t == Term::Apply { fun: Box::new(fun@), args: terms_of(operands@) });
                assert forall|i: int| 0 <= i < operands@.len() implies traversable(
                    #[trigger] terms_of(operands@)[i],
                ) by {
                    assert(traversable(t->args[i]));
                }
            }
            let f = subst_expr(fun, pars, args, hidden);
            let a = subst_exprs(operands, pars, args, hidden);
            Expr::Apply { fun: Box::new(f), args: a }
        },
        Expr::BopExpr { opd1, opd2, bop } => {
            let a = subst_expr(opd1, pars, args, hidden);
            let b = subst_expr(opd2, pars, args, hidden);
            Expr::BopExpr { opd1: Box::new(a), opd2: Box::new(b), bop: *bop }
        },
        Expr::UopExpr { opd, uop } => {
            let a = subst_expr(opd, pars, args, hidden);
            Expr::UopExpr { opd: Box::new(a), uop: *uop }
        },
        Expr::IfExpr { cond, then, elze } => {
            let c = subst_expr(cond, pars, args, hidden);
            let t = subst_expr(then, pars, args, hidden);
            let e = subst_expr(elze, pars, args, hidden);
            Expr::IfExpr { cond: Box::new(c), then: Box::new(t), elze: Box::new(e) }
        },
        Expr::Lambda { pars: inner, body } => {
            let mut under = hidden.clone();
            let bound = par_name_set(inner);
            under.union_with(&bound);
            proof {
                assert(visible(pars@, args@, under@) =~= m.remove_keys(
                    par_names(terms_of(inner@)),
                ));
            }
            let b = subst_expr(body, pars, args, &under);
            let ps = clone_exprs(inner);
            Expr::Lambda { pars: ps, body: Box::new(b) }
        },
    }
}

/// The substitution applied to each expression of a list.
pub fn subst_exprs(es: &Vec<Expr>, pars: &Vec<Expr>, args: &Vec<Expr>, hidden: &NameSet) -> (r:
    Vec<Expr>)
    requires
        forall|i: int| 0 <= i < es@.len() ==> traversable(#[trigger] terms_of(es@)[i]),
        pars@.len() == args@.len(),
        all_ids(terms_of(pars@)),
        hidden.wf(),
    ensures
        terms_of(r@) == subst_all(terms_of(es@), visible(pars@, args@, hidden@)),
    decreases es,
{
    let ghost m = visible(pars@, args@, hidden@);
    let mut out: Vec<Expr> = Vec::new();
    let mut i: usize = 0;
    while i < es.len()
        invariant
            i <= es.len(),
            out@.len() == i,
            forall|j: int| 0 <= j < es@.len() ==> traversable(#[trigger] terms_of(es@)[j]),
            pars@.len() == args@.len(),
            all_ids(terms_of(pars@)),
            hidden.wf(),
            m == visible(pars@, args@, hidden@),
            forall|j: int| 0 <= j < i ==> out@[j]@ == subst(es@[j]@, m),
        decreases es.len() - i,
    {
        assert(traversable(terms_of(es@)[i as int]));
        out.push(subst_expr(&es[i], pars, args, hidden));
        i += 1;
    }
    assert(terms_of(out@) =~= subst_all(terms_of(es@), m));
    out
}

/// The substitution applied to what each statement of a list reads.
pub fn subst_stmts(ss: &Vec<SglStmt>, pars: &Vec<Expr>, args: &Vec<Expr>, hidden: &NameSet) -> (r:
    Vec<SglStmt>)
    requires
        forall|i: int| 0 <= i < ss@.len() ==> traversable(step_read(#[trigger] ss@[i]@)),
        pars@.len() == args@.len(),
        all_ids(terms_of(pars@)),
        hidden.wf(),
    ensures
        steps_view(r@) == subst_steps(steps_view(ss@), visible(pars@, args@, hidden@)),
    decreases ss,
{
    let ghost m = visible(pars@, args@, hidden@);
    let mut out: Vec<SglStmt> = Vec::new();
    let mut i: usize = 0;
    while i < ss.len()
        invariant
            i <= ss.len(),
            out@.len() == i,
            forall|j: int| 0 <= j < ss@.len() ==> traversable(step_read(#[trigger] ss@[j]@)),
            pars@.len() == args@.len(),
            all_ids(terms_of(pars@)),
            hidden.wf(),
            m == visible(pars@, args@, hidden@),
            forall|j: int| 0 <= j < i ==> out@[j]@ == subst_steps(steps_view(ss@), m)[j],
        decreases ss.len() - i,
    {
        assert(traversable(step_read(ss@[i as int]@)));
        let s = match &ss[i] {
            SglStmt::Do { act } => SglStmt::Do { act: subst_expr(act, pars, args, hidden) },
            SglStmt::Ass { dst, src } => SglStmt::Ass {
                dst: clone_expr(dst),
                src: subst_expr(src, pars, args, hidden),
            },
        };
        assert(steps_view(ss@)[i as int] == ss@[i as int]@);
        out.push(s);
        i += 1;
    }
    assert(steps_view(out@) =~= subst_steps(steps_view(ss@), m));
    out
}

/// An integer as a value, where it fits.
pub fn int_val(i: Option<i32>) -> (r: Option<Val>)
    ensures
        r.deep_view() == match i {
            Some(x) => Some(Value::Int(x as int)),
            None => None,
        },
{
    match i {
        Some(x) => Some(Val::Int(x)),
        None => None,
    }
}

/// What a binary operator gives for two values, if anything.
pub fn apply_bop(bop: Binop, a: &Val, b: &Val) -> (r: Option<Val>)
    ensures
        r.deep_view() == bop_value(bop, a@, b@),
{
    match (a, b) {
        (Val::Int(x), Val::Int(y)) => {
            let x: i32 = *x;
            let y: i32 = *y;
            match bop {
                Binop::Add => int_val(x.checked_add(y)),
                Binop::Sub => int_val(x.checked_sub(y)),
                Binop::Mul => int_val(x.checked_mul(y)),
                Binop::Div => int_val(x.checked_div(y)),
                Binop::Eq => Some(Val::Bool(x == y)),
                Binop::Lt => Some(Val::Bool(x < y)),
                Binop::Gt => Some(Val::Bool(x > y)),
                Binop::And => None,
                Binop::Or => None,
            }
        },
        (Val::Bool(x), Val::Bool(y)) => {
            match bop {
                Binop::And => Some(Val::Bool(*x && *y)),
                Binop::Or => Some(Val::Bool(*x || *y)),
                _ => None,
            }
        },
        _ => None,
    }
}

/// What a unary operator gives for a value, if anything.
pub fn apply_uop(uop: Uop, a: &Val) -> (r: Option<Val>)
    ensures
        r.deep_view() == uop_value(uop, a@),
{
    match (uop, a) {
        (Uop::Neg, Val::Int(x)) => {
            let zero: i32 = 0;
            int_val(zero.checked_sub(*x))
        },
        (Uop::Not, Val::Bool(x)) => Some(Val::Bool(!*x)),
        _ => None,
    }
}

/// Whether `fun` can be applied to `args`.
pub fn is_applicable(fun: &Expr, args: &Vec<Expr>) -> (r: bool)
    ensures
        r == applicable(fun@, terms_of(args@)),
{
    match fun {
        Expr::Lambda { pars, body } => are_all_ids(pars) && pars.len() == args.len()
            && is_traversable(body),
        _ => false,
    }
}

/// Whether the expression holds a member access where it is walked.
pub fn has_member(expr: &Expr) -> (r: bool)
    ensures
        r == mentions_member(expr@),
    decreases expr,
{
    match expr {
        Expr::IdExpr { .. } => false,
        Expr::IntConst { .. } => false,
        Expr::BoolConst { .. } => false,
        Expr::Action { stmt } => match stmt {
            Stmt::Stmt { sgl_stmts } => {
                let r = any_step_has_member(sgl_stmts);
                proof {
                    let stmts = steps_view(sgl_stmts@);
                    assert(stmt@ == stmts);
                    if r {
                        let i = choose|i: int|
                            0 <= i < sgl_stmts@.len() && mentions_member(
                                step_read(#[trigger] sgl_stmts@[i]@),
                            );
                        assert(mentions_member(step_read(stmts[i])));
                    }
                    if mentions_member(expr@) {
                        let i = choose|i: int|
                            0 <= i < stmts.len() && mentions_member(step_read(#[trigger] stmts[i]));
                        assert(mentions_member(step_read(sgl_stmts@[i]@)));
                    }
                }
                r
            },
        },
        Expr::Member { .. } => true,
        Expr::Apply { fun, args } => {
            let r1 = has_member(fun);
            let r2 = any_has_member(args);
            proof {
                let ts = terms_of(args@);
                let t = Term::Apply { fun: Box::new(fun@), args: ts };
                assert(expr@ == t);
                if r2 {
                    let i = choose|i: int| 0 <= i < ts.len() && mentions_member(#[trigger] ts[i]);
                    assert(mentions_member(t->args[i]));
                }
                if mentions_member(t) && !r1 {
                    let i = choose|i: int|
                        0 <= i < t->args.len() && mentions_member(#[trigger] t->args[i]);
                    assert(mentions_member(ts[i]));
                }
            }
            r1 || r2
        },
        Expr::BopExpr { opd1, opd2, .. } => {
            let r1 = has_member(opd1);
            let r2 = has_member(opd2);
            r1 || r2
        },
        Expr::UopExpr { opd, .. } => has_member(opd),
        Expr::IfExpr { cond, then, elze } => {
            let r1 = has_member(cond);
            let r2 = has_member(then);
            let r3 = has_member(elze);
            r1 || r2 || r3
        },
        Expr::Lambda { pars: _, body } => has_member(body),
    }
}

/// Whether any expression of the list holds a member access where it is
/// walked.
pub fn any_has_member(es: &Vec<Expr>) -> (r: bool)
    ensures
        r == (exists|i: int| 0 <= i < es@.len() && mentions_member(#[trigger] terms_of(es@)[i])),
    decreases es,
{
    let mut i: usize = 0;
    while i < es.len()
        invariant
            i <= es.len(),
            forall|j: int| 0 <= j < i ==> !mentions_member(#[trigger] terms_of(es@)[j]),
        decreases es.len() - i,
    {
        if has_member(&es[i]) {
            assert(mentions_member(terms_of(es@)[i as int]));
            return true;
        }
        i += 1;
    }
    false
}

/// Whether what any statement of the list reads holds a member access
/// where it is walked.
pub fn any_step_has_member(ss: &Vec<SglStmt>) -> (r: bool)
    ensures
        r == (exists|i: int| 0 <= i < ss@.len() && mentions_member(step_read(#[trigger] ss@[i]@))),
    decreases ss,
{
    let mut i: usize = 0;
    while i < ss.len()
        invariant
            i <= ss.len(),
            forall|j: int| 0 <= j < i ==> !mentions_member(step_read(#[trigger] ss@[j]@)),
        decreases ss.len() - i,
    {
        let found = match &ss[i] {
            SglStmt::Do { act } => has_member(act),
            SglStmt::Ass { dst, src } => has_member(src),
        };
        if found {
            assert(mentions_member(step_read(ss@[i as int]@)));
            return true;
        }
        i += 1;
    }
    false
}

/// Evaluates `expr` against the replica.
///
/// With a limit, at most that many applications are nested in one another,
/// and the result is `None` where the evaluation faults or needs more.
/// Without one, the evaluation is known to end, and goes on until it has.
fn evaluate(expr: &Expr, replica: &Replica, limit: Option<usize>, Ghost(fuel): Ghost<nat>) -> (r:
    Option<Result<Val, EvalError>>)
    requires
        replica.wf(),
        limit matches Some(n) ==> n == fuel,
        limit is None ==> eval(expr@, replica@, fuel) is Some,
    ensures
        shown_if_any(r) == eval(expr@, replica@, fuel),
    decreases fuel, expr,
{
    match expr {
        Expr::IdExpr { ident } => match replica.get(ident) {
            Some(Some(v)) => Some(Ok(v.clone())),
            _ => None,
        },
        Expr::IntConst { val } => Some(Ok(Val::Int(*val))),
        Expr::BoolConst { val } => Some(Ok(Val::Bool(*val))),
        Expr::Action { .. } => Some(Ok(Val::Action(clone_expr(expr)))),
        Expr::Member { .. } => Some(Err(EvalError::UnsupportedCapability)),
        Expr::Apply { fun, args } => {
            assert(expr@ == Term::Apply { fun: Box::new(fun@), args: terms_of(args@) });
            let body = match &**fun {
                Expr::Lambda { pars, body } => {
                    assert(fun@ == Term::Lambda { pars: terms_of(pars@), body: Box::new(body@) });
                    if !are_all_ids(pars) || pars.len() != args.len() {
                        return None;
                    }
                    body
                },
                _ => {
                    assert(!(fun@ is Lambda));
                    return None;
                },
            };
            if has_member(body) {
                return Some(Err(EvalError::UnsupportedCapability));
            }
            if !is_traversable(body) {
                return None;
            }
            let less = match limit {
                Some(n) => {
                    if n == 0 {
                        return None;
                    }
                    Some(n - 1)
                },
                None => None,
            };
            let applied = Worker::subst_pars_with_args(fun, args);
            evaluate(&applied, replica, less, Ghost((fuel - 1) as nat))
        },
        Expr::BopExpr { opd1, opd2, bop } => {
            match evaluate(opd1, replica, limit, Ghost(fuel)) {
                Some(Ok(a)) => match evaluate(opd2, replica, limit, Ghost(fuel)) {
                    Some(Ok(b)) => match apply_bop(*bop, &a, &b) {
                        Some(v) => Some(Ok(v)),
                        None => None,
                    },
                    other => other,
                },
                other => other,
            }
        },
        Expr::UopExpr { opd, uop } => {
            match evaluate(opd, replica, limit, Ghost(fuel)) {
                Some(Ok(a)) => match apply_uop(*uop, &a) {
                    Some(v) => Some(Ok(v)),
                    None => None,
                },
                other => other,
            }
        },
        Expr::IfExpr { cond, then, elze } => {
            match evaluate(cond, replica, limit, Ghost(fuel)) {
                Some(Ok(Val::Bool(b))) => {
                    if b {
                        evaluate(then, replica, limit, Ghost(fuel))
                    } else {
                        evaluate(elze, replica, limit, Ghost(fuel))
                    }
                },
                Some(Ok(_)) => None,
                other => other,
            }
        },
        Expr::Lambda { .. } => Some(Ok(Val::Lambda(clone_expr(expr)))),
    }
}

impl Worker {
    /// The body of the lambda `fun` with each parameter replaced by the
    /// argument at its place, but where a lambda inside it binds the name
    /// anew.
    pub fn subst_pars_with_args(fun: &Expr, args: &Vec<Expr>) -> (r: Expr)
        requires
            applicable(fun@, terms_of(args@)),
        ensures
            r@ == apply(fun@, terms_of(args@)),
    {
        match fun {
            Expr::Lambda { pars, body } => {
                let hidden = NameSet::new();
                proof {
                    assert(visible(pars@, args@, hidden@) =~= bindings(
                        terms_of(pars@),
                        terms_of(args@),
                    ));
                }
                subst_expr(body, pars, args, &hidden)
            },
            _ => vstd::pervasive::unreached(),
        }
    }

    /// The value of `expr`, given the values in the replica for the names
    /// that it reads; the error where `expr` needs a capability that there
    /// is not.
    pub fn compute_val(expr: &Expr, replica: &Replica) -> (r: Result<Val, EvalError>)
        requires
            replica.wf(),
            settles(expr@, replica@),
        ensures
            shown(r) == outcome(expr@, replica@),
    {
        let ghost fuel = choose|fuel: nat| eval(expr@, replica@, fuel) is Some;
        match evaluate(expr, replica, None, Ghost(fuel)) {
            Some(r) => r,
            None => vstd::pervasive::unreached(),
        }
    }

    /// What `compute_val` gives for `expr`, where the evaluation ends and
    /// nests no more than `fuel` applications in one another; `None` where
    /// it faults or needs more.
    pub fn try_compute_val(expr: &Expr, replica: &Replica, fuel: usize) -> (r: Option<
        Result<Val, EvalError>,
    >)
        requires
            replica.wf(),
        ensures
            shown_if_any(r) == eval(expr@, replica@, fuel as nat),
            r matches Some(x) ==> settles(expr@, replica@) && shown(x) == outcome(expr@, replica@),
    {
        let r = evaluate(expr, replica, Some(fuel), Ghost(fuel as nat));
        proof {
            if r is Some {
                lemma_outcome(expr@, replica@, fuel as nat);
            }
        }
        r
    }
}

} // verus!
