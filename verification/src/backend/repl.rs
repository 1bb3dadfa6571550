//! What the interactive front end computes before it assigns a `Var`: the
//! source of the assignment with the current values in place of the names.
use crate::backend::evaluator::Replica;
use crate::backend::message::{Val, Value};
use crate::backend::semantics::Env;
use crate::frontend::meerast::{clone_expr, terms_of, Expr, Term};
use vstd::prelude::*;

verus! {

/// The term that denotes a value.
pub open spec fn value_term(v: Value) -> Term {
    match v {
        Value::Int(i) => Term::Int { val: i },
        Value::Bool(b) => Term::Bool { val: b },
        Value::Action(t) => t,
        Value::Lambda(t) => t,
    }
}

/// Every identifier of `t` outside an action block has a value in `env`,
/// and `t` holds neither a lambda nor a member access outside one.
pub open spec fn closable(t: Term, env: Env) -> bool
    decreases t,
{
    match t {
        Term::Id { ident } => env.contains_key(ident) && env[ident] is Some,
        Term::Int { .. } => true,
        Term::Bool { .. } => true,
        Term::Action { .. } => true,
        Term::Member { .. } => false,
        Term::Apply { fun, args } => closable(*fun, env) && forall|i: int|
            0 <= i < args.len() ==> closable(#[trigger] args[i], env),
        Term::Bop { opd1, opd2, .. } => closable(*opd1, env) && closable(*opd2, env),
        Term::Uop { opd, .. } => closable(*opd, env),
        Term::If { cond, then, elze } => closable(*cond, env) && closable(*then, env) && closable(
            *elze,
            env,
        ),
        Term::Lambda { .. } => false,
    }
}

/// The term with each identifier outside an action block replaced by the
/// term of its value in `env`.
pub open spec fn closed(t: Term, env: Env) -> Term
    decreases t,
{
    match t {
        Term::Id { ident } => value_term(env[ident]->0),
        Term::Int { .. } => t,
        Term::Bool { .. } => t,
        Term::Action { .. } => t,
        Term::Member { .. } => t,
        Term::Apply { fun, args } => Term::Apply {
            fun: Box::new(closed(*fun, env)),
            args: closed_all(args, env),
        },
        Term::Bop { opd1, opd2, bop } => Term::Bop {
            opd1: Box::new(closed(*opd1, env)),
            opd2: Box::new(closed(*opd2, env)),
            bop,
        },
        Term::Uop { opd, uop } => Term::Uop { opd: Box::new(closed(*opd, env)), uop },
        Term::If { cond, then, elze } => Term::If {
            cond: Box::new(closed(*cond, env)),
            then: Box::new(closed(*then, env)),
            elze: Box::new(closed(*elze, env)),
        },
        Term::Lambda { .. } => t,
    }
}

/// Each term of the list with the values in place of the names.
pub open spec fn closed_all(ts: Seq<Term>, env: Env) -> Seq<Term>
    decreases ts,
{
    Seq::new(
        ts.len(),
        |i: int|
            if 0 <= i < ts.len() {
                closed(ts[i], env)
            } else {
                Term::Int { val: 0 }
            },
    )
}

/// The expression that denotes a value.
pub fn val_to_expr(v: &Val) -> (r: Expr)
    ensures
        r@ == value_term(v@),
{
    match v {
        Val::Int(i) => Expr::IntConst { val: *i },
        Val::Bool(b) => Expr::BoolConst { val: *b },
        Val::Action(e) => clone_expr(e),
        Val::Lambda(e) => clone_expr(e),
    }
}

/// Whether `subst_idents_in_expr_for_vals` can be applied to `expr` with
/// the values in `vals`.
pub fn can_subst_idents(expr: &Expr, vals: &Replica) -> (r: bool)
    requires
        vals.wf(),
    ensures
        r == closable(expr@, vals@),
    decreases expr,
{
    match expr {
        Expr::IdExpr { ident } => match vals.get(ident) {
            Some(v) => v.is_some(),
            None => false,
        },
        Expr::IntConst { .. } => true,
        Expr::BoolConst { .. } => true,
        Expr::Action { .. } => true,
        Expr::Member { .. } => false,
        Expr::Apply { fun, args } => {
            let r1 = can_subst_idents(fun, vals);
            let r2 = can_subst_all(args, vals);
            proof {
                let ts = terms_of(args@);
                let t = Term::Apply { fun: Box::new(fun@), args: ts };
                assert(expr@ == t);
                if closable(t, vals@) {
                    assert forall|i: int| 0 <= i < ts.len() implies closable(
                        #[trigger] ts[i],
                        vals@,
                    ) by {
                        assert(closable(t->args[i], vals@));
                    }
                }
            }
            r1 && r2
        },
        Expr::BopExpr { opd1, opd2, .. } => {
            let r1 = can_subst_idents(opd1, vals);
            let r2 = can_subst_idents(opd2, vals);
            r1 && r2
        },
        Expr::UopExpr { opd, .. } => can_subst_idents(opd, vals),
        Expr::IfExpr { cond, then, elze } => {
            let r1 = can_subst_idents(cond, vals);
            let r2 = can_subst_idents(then, vals);
            let r3 = can_subst_idents(elze, vals);
            r1 && r2 && r3
        },
        Expr::Lambda { .. } => false,
    }
}

/// Whether `subst_idents_in_expr_for_vals` can be applied to each
/// expression of the list.
pub fn can_subst_all(es: &Vec<Expr>, vals: &Replica) -> (r: bool)
    requires
        vals.wf(),
    ensures
        r == (forall|i: int| 0 <= i < es@.len() ==> closable(#[trigger] terms_of(es@)[i], vals@)),
    decreases es,
{
    let mut i: usize = 0;
    while i < es.len()
        invariant
            i <= es.len(),
            vals.wf(),
            forall|j: int| 0 <= j < i ==> closable(#[trigger] terms_of(es@)[j], vals@),
        decreases es.len() - i,
    {
        if !can_subst_idents(&es[i], vals) {
            assert(!closable(terms_of(es@)[i as int], vals@));
            return false;
        }
        i += 1;
    }
    true
}

/// The expression with each identifier outside an action block replaced by
/// the expression of its value in `vals`.
pub fn subst_idents_in_expr_for_vals(expr: &Expr, vals: &Replica) -> (r: Expr)
    requires
        vals.wf(),
        closable(expr@, vals@),
    ensures
        r@ == closed(expr@, vals@),
    decreases expr,
{
    match expr {
        Expr::IdExpr { ident } => match vals.get(ident) {
            Some(Some(v)) => val_to_expr(v),
            _ => vstd::pervasive::unreached(),
        },
        Expr::IntConst { .. } => clone_expr(expr),
        Expr::BoolConst { .. } => clone_expr(expr),
        Expr::Action { .. } => clone_expr(expr),
        Expr::Member { .. } => clone_expr(expr),
        Expr::Apply { fun, args } => {
            proof {
                let ts = terms_of(args@);
                let t = Term::Apply { fun: Box::new(fun@), args: ts };
                assert(expr@ == t);
                assert forall|i: int| 0 <= i < ts.len() implies closable(
                    #[trigger] ts[i],
                    vals@,
                ) by {
                    assert(closable(t->args[i], vals@));
                }
            }
            let f = subst_idents_in_expr_for_vals(fun, vals);
            let a = subst_idents_in_all(args, vals);
            Expr::Apply { fun: Box::new(f), args: a }
        },
        Expr::BopExpr { opd1, opd2, bop } => {
            let a = subst_idents_in_expr_for_vals(opd1, vals);
            let b = subst_idents_in_expr_for_vals(opd2, vals);
            Expr::BopExpr { opd1: Box::new(a), opd2: Box::new(b), bop: *bop }
        },
        Expr::UopExpr { opd, uop } => {
            let a = subst_idents_in_expr_for_vals(opd, vals);
            Expr::UopExpr { opd: Box::new(a), uop: *uop }
        },
        Expr::IfExpr { cond, then, elze } => {
            let c = subst_idents_in_expr_for_vals(cond, vals);
            let t = subst_idents_in_expr_for_vals(then, vals);
            let e = subst_idents_in_expr_for_vals(elze, vals);
            Expr::IfExpr { cond: Box::new(c), then: Box::new(t), elze: Box::new(e) }
        },
        Expr::Lambda { .. } => clone_expr(expr),
    }
}

/// Each expression of the list with the values in place of the names.
pub fn subst_idents_in_all(es: &Vec<Expr>, vals: &Replica) -> (r: Vec<Expr>)
    requires
        vals.wf(),
        forall|i: int| 0 <= i < es@.len() ==> closable(#[trigger] terms_of(es@)[i], vals@),
    ensures
        terms_of(r@) == closed_all(terms_of(es@), vals@),
    decreases es,
{
    let mut out: Vec<Expr> = Vec::new();
    let mut i: usize = 0;
    while i < es.len()
        invariant
            i <= es.len(),
            out@.len() == i,
            vals.wf(),
            forall|j: int| 0 <= j < es@.len() ==> closable(#[trigger] terms_of(es@)[j], vals@),
            forall|j: int| 0 <= j < i ==> out@[j]@ == closed(es@[j]@, vals@),
        decreases es.len() - i,
    {
        assert(closable(terms_of(es@)[i as int], vals@));
        out.push(subst_idents_in_expr_for_vals(&es[i], vals));
        i += 1;
    }
    assert(terms_of(out@) =~= closed_all(terms_of(es@), vals@));
    out
}

} // verus!
