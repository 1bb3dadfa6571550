//! More fuel never changes an outcome: where an inference has an outcome
//! with some fuel, it has the same outcome with any more.
use crate::frontend::meerast::{Decl, Step, Term};
use crate::frontend::typecheck::Ty;
use crate::frontend::typing::{
    after_meta, bottom, bump, checked, checked_all, checked_steps, declared, declared_all,
    declared_name, generalized, id_used, in_any_from, in_sigma_v, instantiated, lambda_pars,
    loose_from, meta_at, meta_for_each, metas, operand_ty, pair_up, reaches, reaches_from,
    refresh, result_ty, root_of, roots_into, roots_into_all, subst_ty, subst_tys, subst_tys_from,
    unified, unified_all, unify_then, uop_ty, with_name, Declared, Gen, Store, TyEnv, TyMap,
};
use vstd::prelude::*;

verus! {

/// The end of a chain of metavariables, once found, stays the same with
/// more fuel.
pub proof fn lemma_bottom_monotone(sigma_m: TyMap, name: Seq<char>, fuel: nat, more: nat)
    requires
        bottom(sigma_m, name, fuel) is Some,
        fuel <= more,
    ensures
        bottom(sigma_m, name, more) == bottom(sigma_m, name, fuel),
    decreases fuel,
{
    if sigma_m.contains_key(name) {
        match sigma_m[name] {
            Ty::Meta { name: next } => {
                if sigma_m.contains_key(next) {
                    lemma_bottom_monotone(sigma_m, next, (fuel - 1) as nat, (more - 1) as nat);
                }
            },
            _ => {},
        }
    }
}

/// The unbound end of a chain of metavariables, once found, stays the same
/// with more fuel.
pub proof fn lemma_root_monotone(sigma_m: TyMap, meta: Seq<char>, fuel: nat, more: nat)
    requires
        root_of(sigma_m, meta, fuel) is Some,
        fuel <= more,
    ensures
        root_of(sigma_m, meta, more) == root_of(sigma_m, meta, fuel),
    decreases fuel,
{
    if sigma_m.contains_key(meta) {
        match sigma_m[meta] {
            Ty::Meta { name } => {
                lemma_root_monotone(sigma_m, name, (fuel - 1) as nat, (more - 1) as nat);
            },
            _ => {},
        }
    }
}

/// A substitution, once it has a result, has the same with more fuel.
pub proof fn lemma_subst_monotone(
    g: Gen,
    ty: Ty,
    map: TyMap,
    sigma_m: TyMap,
    fuel: nat,
    more: nat,
)
    requires
        subst_ty(g, ty, map, sigma_m, fuel) is Some,
        fuel <= more,
    ensures
        subst_ty(g, ty, map, sigma_m, more) == subst_ty(g, ty, map, sigma_m, fuel),
    decreases fuel, ty, 0nat,
{
    match ty {
        Ty::Fun { par_types, ret_type } => {
            assert(subst_tys(g, par_types, map, sigma_m, fuel) == subst_tys_from(
                g,
                par_types,
                0,
                Seq::empty(),
                map,
                sigma_m,
                fuel,
            ));
            assert(subst_tys(g, par_types, map, sigma_m, more) == subst_tys_from(
                g,
                par_types,
                0,
                Seq::empty(),
                map,
                sigma_m,
                more,
            ));
            lemma_subst_tys_monotone(g, par_types, 0, Seq::empty(), map, sigma_m, fuel, more);
            let (pars, g1) = subst_tys(g, par_types, map, sigma_m, fuel)->0;
            lemma_subst_monotone(g1, *ret_type, map, sigma_m, fuel, more);
        },
        Ty::Poly { tyvars, poly_type } => {
            let (gammas, renaming, g1) = refresh(tyvars, 0, Seq::empty(), Map::empty(), g)->0;
            lemma_subst_monotone(g1, *poly_type, renaming, sigma_m, fuel, more);
            let (renamed, g2) = subst_ty(g1, *poly_type, renaming, sigma_m, fuel)->0;
            lemma_subst_monotone(g2, renamed, map, sigma_m, (fuel - 1) as nat, (more - 1) as nat);
        },
        Ty::Meta { name } => {
            lemma_bottom_monotone(sigma_m, name, fuel, more);
            match bottom(sigma_m, name, fuel) {
                Some(Some(t)) => {
                    lemma_subst_monotone(g, t, map, sigma_m, (fuel - 1) as nat, (more - 1) as nat);
                },
                _ => {},
            }
        },
        _ => {},
    }
}

/// A substitution in a list, once it has a result, has the same with more
/// fuel.
pub proof fn lemma_subst_tys_monotone(
    g: Gen,
    tys: Seq<Ty>,
    i: nat,
    done: Seq<Ty>,
    map: TyMap,
    sigma_m: TyMap,
    fuel: nat,
    more: nat,
)
    requires
        subst_tys_from(g, tys, i, done, map, sigma_m, fuel) is Some,
        fuel <= more,
    ensures
        subst_tys_from(g, tys, i, done, map, sigma_m, more) == subst_tys_from(
            g,
            tys,
            i,
            done,
            map,
            sigma_m,
            fuel,
        ),
    decreases fuel, tys, tys.len() - i,
{
    if i < tys.len() {
        lemma_subst_monotone(g, tys[i as int], map, sigma_m, fuel, more);
        let (t, g1) = subst_ty(g, tys[i as int], map, sigma_m, fuel)->0;
        lemma_subst_tys_monotone(g1, tys, i + 1, done.push(t), map, sigma_m, fuel, more);
    }
}

/// The unbound ends of the chains of a type, once found, stay the same with
/// more fuel.
pub proof fn lemma_roots_monotone(acc: Seq<Seq<char>>, sigma_m: TyMap, ty: Ty, fuel: nat, more: nat)
    requires
        roots_into(acc, sigma_m, ty, fuel) is Some,
        fuel <= more,
    ensures
        roots_into(acc, sigma_m, ty, more) == roots_into(acc, sigma_m, ty, fuel),
    decreases ty, 0nat,
{
    match ty {
        Ty::Fun { par_types, ret_type } => {
            lemma_roots_all_monotone(acc, sigma_m, par_types, 0, fuel, more);
            let acc1 = roots_into_all(acc, sigma_m, par_types, 0, fuel)->0;
            lemma_roots_monotone(acc1, sigma_m, *ret_type, fuel, more);
        },
        Ty::Meta { name } => {
            lemma_root_monotone(sigma_m, name, fuel, more);
        },
        Ty::Poly { tyvars, poly_type } => {
            lemma_roots_monotone(acc, sigma_m, *poly_type, fuel, more);
        },
        _ => {},
    }
}

/// `lemma_roots_monotone` for the types of a list from the `i`-th on.
pub proof fn lemma_roots_all_monotone(
    acc: Seq<Seq<char>>,
    sigma_m: TyMap,
    tys: Seq<Ty>,
    i: nat,
    fuel: nat,
    more: nat,
)
    requires
        roots_into_all(acc, sigma_m, tys, i, fuel) is Some,
        fuel <= more,
    ensures
        roots_into_all(acc, sigma_m, tys, i, more) == roots_into_all(acc, sigma_m, tys, i, fuel),
    decreases tys, tys.len() - i,
{
    if i < tys.len() {
        lemma_roots_monotone(acc, sigma_m, tys[i as int], fuel, more);
        let acc1 = roots_into(acc, sigma_m, tys[i as int], fuel)->0;
        lemma_roots_all_monotone(acc1, sigma_m, tys, i + 1, fuel, more);
    }
}

/// Whether a metavariable reaches into a type, once decided, stays decided
/// the same way with more fuel.
pub proof fn lemma_reaches_monotone(sigma_m: TyMap, meta: Seq<char>, ty: Ty, fuel: nat, more: nat)
    requires
        reaches(sigma_m, meta, ty, fuel) is Some,
        fuel <= more,
    ensures
        reaches(sigma_m, meta, ty, more) == reaches(sigma_m, meta, ty, fuel),
    decreases fuel, 1nat, 0nat,
{
    if !metas(ty).contains(meta) {
        lemma_reaches_from_monotone(sigma_m, meta, metas(ty), 0, fuel, more);
    }
}

/// `lemma_reaches_monotone` for the metavariables of a list from the
/// `i`-th on.
pub proof fn lemma_reaches_from_monotone(
    sigma_m: TyMap,
    meta: Seq<char>,
    ms: Seq<Seq<char>>,
    i: nat,
    fuel: nat,
    more: nat,
)
    requires
        reaches_from(sigma_m, meta, ms, i, fuel) is Some,
        fuel <= more,
    ensures
        reaches_from(sigma_m, meta, ms, i, more) == reaches_from(sigma_m, meta, ms, i, fuel),
    decreases fuel, 0nat, ms.len() - i,
{
    if i < ms.len() {
        lemma_reaches_monotone(
            sigma_m,
            meta,
            sigma_m[ms[i as int]],
            (fuel - 1) as nat,
            (more - 1) as nat,
        );
        if reaches(sigma_m, meta, sigma_m[ms[i as int]], (fuel - 1) as nat) == Some(false) {
            lemma_reaches_from_monotone(sigma_m, meta, ms, i + 1, fuel, more);
        }
    }
}

/// Whether a metavariable is in scope, once decided, stays decided the same
/// way with more fuel.
pub proof fn lemma_in_sigma_v_monotone(
    meta: Seq<char>,
    sigma_m: TyMap,
    sigma_v: TyEnv,
    fuel: nat,
    more: nat,
)
    requires
        in_sigma_v(meta, sigma_m, sigma_v, fuel) is Some,
        fuel <= more,
    ensures
        in_sigma_v(meta, sigma_m, sigma_v, more) == in_sigma_v(meta, sigma_m, sigma_v, fuel),
{
    if !sigma_v.types.contains_key(meta) {
        lemma_in_any_monotone(meta, sigma_m, sigma_v, 0, fuel, more);
    }
}

/// `lemma_in_sigma_v_monotone` for the variables from the `i`-th on.
pub proof fn lemma_in_any_monotone(
    meta: Seq<char>,
    sigma_m: TyMap,
    sigma_v: TyEnv,
    i: nat,
    fuel: nat,
    more: nat,
)
    requires
        in_any_from(meta, sigma_m, sigma_v, i, fuel) is Some,
        fuel <= more,
    ensures
        in_any_from(meta, sigma_m, sigma_v, i, more) == in_any_from(
            meta,
            sigma_m,
            sigma_v,
            i,
            fuel,
        ),
    decreases sigma_v.keys.len() - i,
{
    if i < sigma_v.keys.len() {
        let ty = sigma_v.types[sigma_v.keys[i as int]];
        lemma_reaches_monotone(sigma_m, meta, ty, fuel, more);
        if reaches(sigma_m, meta, ty, fuel) == Some(false) {
            lemma_in_any_monotone(meta, sigma_m, sigma_v, i + 1, fuel, more);
        }
    }
}

/// The metavariables that are loose, once found, stay the same with more
/// fuel.
pub proof fn lemma_loose_monotone(
    acc: Seq<Seq<char>>,
    ms: Seq<Seq<char>>,
    i: nat,
    sigma_m: TyMap,
    sigma_v: TyEnv,
    fuel: nat,
    more: nat,
)
    requires
        loose_from(acc, ms, i, sigma_m, sigma_v, fuel) is Some,
        fuel <= more,
    ensures
        loose_from(acc, ms, i, sigma_m, sigma_v, more) == loose_from(
            acc,
            ms,
            i,
            sigma_m,
            sigma_v,
            fuel,
        ),
    decreases ms.len() - i,
{
    if i < ms.len() {
        lemma_in_sigma_v_monotone(ms[i as int], sigma_m, sigma_v, fuel, more);
        match in_sigma_v(ms[i as int], sigma_m, sigma_v, fuel) {
            Some(true) => {
                lemma_loose_monotone(acc, ms, i + 1, sigma_m, sigma_v, fuel, more);
            },
            Some(false) => {
                lemma_loose_monotone(
                    with_name(acc, ms[i as int]),
                    ms,
                    i + 1,
                    sigma_m,
                    sigma_v,
                    fuel,
                    more,
                );
            },
            None => {},
        }
    }
}

/// A generalisation, once it has a result, has the same with more fuel.
pub proof fn lemma_generalized_monotone(
    sigma_m: TyMap,
    sigma_v: TyEnv,
    ty: Ty,
    g: Gen,
    fuel: nat,
    more: nat,
)
    requires
        generalized(sigma_m, sigma_v, ty, g, fuel) is Some,
        fuel <= more,
    ensures
        generalized(sigma_m, sigma_v, ty, g, more) == generalized(sigma_m, sigma_v, ty, g, fuel),
{
    lemma_roots_monotone(Seq::empty(), sigma_m, ty, fuel, more);
    let roots = roots_into(Seq::empty(), sigma_m, ty, fuel)->0;
    lemma_loose_monotone(Seq::empty(), roots, 0, sigma_m, sigma_v, fuel, more);
}

/// An instantiation, once it has a result, has the same with more fuel.
pub proof fn lemma_instantiated_monotone(s: Store, poly: Ty, fuel: nat, more: nat)
    requires
        instantiated(s, poly, fuel) is Some,
        fuel <= more,
    ensures
        instantiated(s, poly, more) == instantiated(s, poly, fuel),
{
    match poly {
        Ty::Poly { tyvars, poly_type } => {
            let (m, metas1) = meta_for_each(tyvars, 0, Map::empty(), s.metas)->0;
            lemma_subst_monotone(s.tyvars, *poly_type, m, s.sigma_m, fuel, more);
        },
        _ => {},
    }
}

/// A unification, once it has an outcome, has the same with more fuel.
pub proof fn lemma_unified_monotone(s: Store, t1: Ty, t2: Ty, fuel: nat, more: nat)
    requires
        unified(s, t1, t2, fuel) is Some,
        fuel <= more,
    ensures
        unified(s, t1, t2, more) == unified(s, t1, t2, fuel),
    decreases fuel, t1, 0nat,
{
    let swapped = t2 is Meta && match t1 {
        Ty::Int => !(t2 is Int),
        Ty::Bool => !(t2 is Bool),
        Ty::Unit => !(t2 is Unit),
        Ty::Action => !(t2 is Action),
        Ty::Fun { .. } => true,
        Ty::Poly { .. } => true,
        Ty::Tyvar { .. } => true,
        Ty::Meta { .. } => false,
    };
    if swapped {
        lemma_unified_monotone(s, t2, t1, (fuel - 1) as nat, (more - 1) as nat);
    }
    match t1 {
        Ty::Fun { par_types: lhs, ret_type: r1 } => match t2 {
            Ty::Fun { par_types: rhs, ret_type: r2 } => {
                lemma_unified_all_monotone(s, lhs, rhs, 0, fuel, more);
                match unified_all(s, lhs, rhs, 0, fuel) {
                    Some((Ok(_), s1)) => {
                        lemma_unified_monotone(s1, *r1, *r2, fuel, more);
                    },
                    _ => {},
                }
            },
            _ => {},
        },
        Ty::Poly { tyvars: a1, poly_type: u1 } => match t2 {
            Ty::Poly { tyvars: a2, poly_type: u2 } => {
                if a1.len() == a2.len() {
                    match pair_up(a1, a2, 0, Map::empty()) {
                        Some(m) => {
                            lemma_subst_monotone(s.tyvars, *u2, m, s.sigma_m, fuel, more);
                            let (u2s, g) = subst_ty(s.tyvars, *u2, m, s.sigma_m, fuel)->0;
                            lemma_unified_monotone(
                                Store { sigma_m: s.sigma_m, metas: s.metas, tyvars: g },
                                *u1,
                                u2s,
                                fuel,
                                more,
                            );
                        },
                        None => {},
                    }
                }
            },
            _ => {},
        },
        Ty::Meta { name: alpha } => {
            if s.sigma_m.contains_key(alpha) {
                lemma_unified_monotone(
                    s,
                    s.sigma_m[alpha],
                    t2,
                    (fuel - 1) as nat,
                    (more - 1) as nat,
                );
            } else {
                match t2 {
                    Ty::Meta { name: gamma } => {
                        if s.sigma_m.contains_key(gamma) {
                            lemma_unified_monotone(
                                s,
                                t1,
                                s.sigma_m[gamma],
                                (fuel - 1) as nat,
                                (more - 1) as nat,
                            );
                        }
                    },
                    _ => {},
                }
            }
        },
        _ => {},
    }
}

/// `lemma_unified_monotone` for the pairs of two lists from the `i`-th on.
pub proof fn lemma_unified_all_monotone(
    s: Store,
    lhs: Seq<Ty>,
    rhs: Seq<Ty>,
    i: nat,
    fuel: nat,
    more: nat,
)
    requires
        unified_all(s, lhs, rhs, i, fuel) is Some,
        fuel <= more,
    ensures
        unified_all(s, lhs, rhs, i, more) == unified_all(s, lhs, rhs, i, fuel),
    decreases fuel, lhs, lhs.len() - i,
{
    if i < lhs.len() && i < rhs.len() {
        lemma_unified_monotone(s, lhs[i as int], rhs[i as int], fuel, more);
        match unified(s, lhs[i as int], rhs[i as int], fuel) {
            Some((Ok(_), s1)) => {
                lemma_unified_all_monotone(s1, lhs, rhs, i + 1, fuel, more);
            },
            _ => {},
        }
    }
}

/// `lemma_unified_monotone` for a unification that gives a type.
pub proof fn lemma_unify_then_monotone(
    s: Store,
    t: Ty,
    want: Ty,
    result: Ty,
    fuel: nat,
    more: nat,
)
    requires
        unify_then(s, t, want, result, fuel) is Some,
        fuel <= more,
    ensures
        unify_then(s, t, want, result, more) == unify_then(s, t, want, result, fuel),
{
    lemma_unified_monotone(s, t, want, fuel, more);
}

/// The check of an expression, once it has an outcome, has the same with
/// more fuel.
pub proof fn lemma_checked_monotone(sigma_v: TyMap, s: Store, e: Term, fuel: nat, more: nat)
    requires
        checked(sigma_v, s, e, fuel) is Some,
        fuel <= more,
    ensures
        checked(sigma_v, s, e, more) == checked(sigma_v, s, e, fuel),
    decreases e, 0nat,
{
    match e {
        Term::Id { ident } => {
            lemma_instantiated_monotone(s, sigma_v[ident], fuel, more);
        },
        Term::Action { stmts } => {
            lemma_checked_steps_monotone(sigma_v, s, stmts, 0, fuel, more);
        },
        Term::Apply { fun, args } => {
            lemma_checked_monotone(sigma_v, s, *fun, fuel, more);
            match checked(sigma_v, s, *fun, fuel) {
                Some((Ok(fun_type), s1)) => {
                    lemma_checked_all_monotone(sigma_v, s1, args, 0, Seq::empty(), fuel, more);
                    match checked_all(sigma_v, s1, args, 0, Seq::empty(), fuel) {
                        Some((Ok(arg_types), s2)) => {
                            lemma_unify_then_monotone(
                                after_meta(s2),
                                fun_type,
                                Ty::Fun {
                                    par_types: arg_types,
                                    ret_type: Box::new(meta_at(s2.metas)),
                                },
                                meta_at(s2.metas),
                                fuel,
                                more,
                            );
                        },
                        _ => {},
                    }
                },
                _ => {},
            }
        },
        Term::Bop { opd1, opd2, bop } => {
            lemma_checked_monotone(sigma_v, s, *opd1, fuel, more);
            match checked(sigma_v, s, *opd1, fuel) {
                Some((Ok(t1), s1)) => {
                    lemma_checked_monotone(sigma_v, s1, *opd2, fuel, more);
                    match checked(sigma_v, s1, *opd2, fuel) {
                        Some((Ok(t2), s2)) => {
                            lemma_unified_monotone(s2, t1, operand_ty(bop), fuel, more);
                            match unified(s2, t1, operand_ty(bop), fuel) {
                                Some((Ok(_), s3)) => {
                                    lemma_unify_then_monotone(
                                        s3,
                                        t2,
                                        operand_ty(bop),
                                        result_ty(bop),
                                        fuel,
                                        more,
                                    );
                                },
                                _ => {},
                            }
                        },
                        _ => {},
                    }
                },
                _ => {},
            }
        },
        Term::Uop { opd, uop } => {
            lemma_checked_monotone(sigma_v, s, *opd, fuel, more);
            match checked(sigma_v, s, *opd, fuel) {
                Some((Ok(t), s1)) => {
                    lemma_unify_then_monotone(s1, t, uop_ty(uop), uop_ty(uop), fuel, more);
                },
                _ => {},
            }
        },
        Term::If { cond, then, elze } => {
            lemma_checked_monotone(sigma_v, s, *cond, fuel, more);
            match checked(sigma_v, s, *cond, fuel) {
                Some((Ok(tc), s1)) => {
                    lemma_checked_monotone(sigma_v, s1, *then, fuel, more);
                    match checked(sigma_v, s1, *then, fuel) {
                        Some((Ok(tt), s2)) => {
                            lemma_checked_monotone(sigma_v, s2, *elze, fuel, more);
                            match checked(sigma_v, s2, *elze, fuel) {
                                Some((Ok(te), s3)) => {
                                    lemma_unified_monotone(s3, tc, Ty::Bool, fuel, more);
                                    match unified(s3, tc, Ty::Bool, fuel) {
                                        Some((Ok(_), s4)) => {
                                            lemma_unify_then_monotone(s4, tt, te, tt, fuel, more);
                                        },
                                        _ => {},
                                    }
                                },
                                _ => {},
                            }
                        },
                        _ => {},
                    }
                },
                _ => {},
            }
        },
        Term::Lambda { pars, body } => {
            let (par_metas, local, g1) = lambda_pars(pars, 0, Seq::empty(), sigma_v, s.metas)->0;
            let s0 = Store {
                sigma_m: s.sigma_m,
                metas: bump(g1),
                tyvars: s.tyvars,
            };
            lemma_checked_monotone(local, s0, *body, fuel, more);
            match checked(local, s0, *body, fuel) {
                Some((Ok(t3), s1)) => {
                    lemma_unify_then_monotone(
                        s1,
                        meta_at(g1),
                        t3,
                        Ty::Fun { par_types: par_metas, ret_type: Box::new(meta_at(g1)) },
                        fuel,
                        more,
                    );
                },
                _ => {},
            }
        },
        _ => {},
    }
}

/// `lemma_checked_monotone` for the terms of a list from the `i`-th on.
pub proof fn lemma_checked_all_monotone(
    sigma_v: TyMap,
    s: Store,
    es: Seq<Term>,
    i: nat,
    done: Seq<Ty>,
    fuel: nat,
    more: nat,
)
    requires
        checked_all(sigma_v, s, es, i, done, fuel) is Some,
        fuel <= more,
    ensures
        checked_all(sigma_v, s, es, i, done, more) == checked_all(sigma_v, s, es, i, done, fuel),
    decreases es, es.len() - i,
{
    if i < es.len() {
        lemma_checked_monotone(sigma_v, s, es[i as int], fuel, more);
        match checked(sigma_v, s, es[i as int], fuel) {
            Some((Ok(t), s1)) => {
                lemma_checked_all_monotone(sigma_v, s1, es, i + 1, done.push(t), fuel, more);
            },
            _ => {},
        }
    }
}

/// `lemma_checked_monotone` for the steps of an action block from the
/// `i`-th on.
pub proof fn lemma_checked_steps_monotone(
    sigma_v: TyMap,
    s: Store,
    ss: Seq<Step>,
    i: nat,
    fuel: nat,
    more: nat,
)
    requires
        checked_steps(sigma_v, s, ss, i, fuel) is Some,
        fuel <= more,
    ensures
        checked_steps(sigma_v, s, ss, i, more) == checked_steps(sigma_v, s, ss, i, fuel),
    decreases ss, ss.len() - i,
{
    if i < ss.len() {
        match ss[i as int] {
            Step::Do { act } => {
                lemma_checked_monotone(sigma_v, s, act, fuel, more);
                match checked(sigma_v, s, act, fuel) {
                    Some((Ok(_), s1)) => {
                        lemma_checked_steps_monotone(sigma_v, s1, ss, i + 1, fuel, more);
                    },
                    _ => {},
                }
            },
            Step::Ass { dst, src } => {
                lemma_checked_monotone(sigma_v, s, dst, fuel, more);
                match checked(sigma_v, s, dst, fuel) {
                    Some((Ok(dst_type), s1)) => {
                        lemma_checked_monotone(sigma_v, s1, src, fuel, more);
                        match checked(sigma_v, s1, src, fuel) {
                            Some((Ok(src_type), s2)) => {
                                lemma_unified_monotone(s2, dst_type, src_type, fuel, more);
                                match unified(s2, dst_type, src_type, fuel) {
                                    Some((Ok(_), s3)) => {
                                        lemma_checked_steps_monotone(
                                            sigma_v,
                                            s3,
                                            ss,
                                            i + 1,
                                            fuel,
                                            more,
                                        );
                                    },
                                    _ => {},
                                }
                            },
                            _ => {},
                        }
                    },
                    _ => {},
                }
            },
        }
    }
}

/// The check of a declaration, once it has an outcome, has the same with
/// more fuel.
pub proof fn lemma_declared_monotone(
    sigma_v: TyEnv,
    pub_access: Map<Seq<char>, bool>,
    s: Store,
    decl: Decl,
    fuel: nat,
    more: nat,
)
    requires
        declared(sigma_v, pub_access, s, decl, fuel) is Some,
        fuel <= more,
    ensures
        declared(sigma_v, pub_access, s, decl, more) == declared(
            sigma_v,
            pub_access,
            s,
            decl,
            fuel,
        ),
{
    match decl {
        Decl::Import { .. } => {},
        Decl::VarDecl { name, val } => {
            lemma_declared_name_monotone(sigma_v, pub_access, s, name@, val@, None, fuel, more);
        },
        Decl::DefDecl { name, val, is_pub } => {
            lemma_declared_name_monotone(
                sigma_v,
                pub_access,
                s,
                name@,
                val@,
                Some(is_pub),
                fuel,
                more,
            );
        },
    }
}

/// `lemma_declared_monotone` for a `Var` or a `Def`.
pub proof fn lemma_declared_name_monotone(
    sigma_v: TyEnv,
    pub_access: Map<Seq<char>, bool>,
    s: Store,
    name: Seq<char>,
    val: Term,
    is_pub: Option<bool>,
    fuel: nat,
    more: nat,
)
    requires
        declared_name(sigma_v, pub_access, s, name, val, is_pub, fuel) is Some,
        fuel <= more,
    ensures
        declared_name(sigma_v, pub_access, s, name, val, is_pub, more) == declared_name(
            sigma_v,
            pub_access,
            s,
            name,
            val,
            is_pub,
            fuel,
        ),
{
    lemma_checked_monotone(sigma_v.types, s, val, fuel, more);
    match checked(sigma_v.types, s, val, fuel) {
        Some((Ok(src_type), s1)) => {
            if id_used(name, val) == Some(false) {
                lemma_generalized_monotone(s1.sigma_m, sigma_v, src_type, s1.tyvars, fuel, more);
            }
        },
        _ => {},
    }
}

/// The check of a program, once it has an outcome, has the same with more
/// fuel.
pub proof fn lemma_declared_all_monotone(
    decls: Seq<Decl>,
    i: nat,
    d: Declared,
    fuel: nat,
    more: nat,
)
    requires
        declared_all(decls, i, d, fuel) is Some,
        fuel <= more,
    ensures
        declared_all(decls, i, d, more) == declared_all(decls, i, d, fuel),
    decreases decls.len() - i,
{
    if i < decls.len() {
        lemma_declared_monotone(d.sigma_v, d.pub_access, d.store, decls[i as int], fuel, more);
        let d1 = declared(d.sigma_v, d.pub_access, d.store, decls[i as int], fuel)->0;
        lemma_declared_all_monotone(decls, i + 1, d1, fuel, more);
    }
}

} // verus!
