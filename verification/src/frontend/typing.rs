//! What type inference computes, stated over the types that `Type` denotes.
//!
//! Inference follows chains of metavariables that unification has bound,
//! and these may run in a circle. Each function here therefore takes fuel,
//! the number of jumps it may still make to a type that is no part of the
//! one in hand, and gives `None` where it needs more, as where the
//! inference faults.
use crate::frontend::meerast::{Binop, Decl, Step, Term, Uop};
use crate::frontend::typecheck::Ty;
use vstd::prelude::*;

verus! {

/// A map from the names of variables to types.
pub type TyMap = Map<Seq<char>, Ty>;

/// The decimal digit of a number below ten.
pub open spec fn digit(d: int) -> char {
    if d == 0 {
        '0'
    } else if d == 1 {
        '1'
    } else if d == 2 {
        '2'
    } else if d == 3 {
        '3'
    } else if d == 4 {
        '4'
    } else if d == 5 {
        '5'
    } else if d == 6 {
        '6'
    } else if d == 7 {
        '7'
    } else if d == 8 {
        '8'
    } else {
        '9'
    }
}

/// The decimal digits of a natural number, without leading zeros.
pub open spec fn digits(n: nat) -> Seq<char>
    decreases n,
{
    if n < 10 {
        seq![digit(n as int)]
    } else {
        digits(n / 10).push(digit((n % 10) as int))
    }
}

/// An integer in decimal, with a minus sign where it is negative.
pub open spec fn decimal(i: int) -> Seq<char> {
    if i < 0 {
        seq!['-'] + digits((-i) as nat)
    } else {
        digits(i as nat)
    }
}

/// The name of the `count`-th variable of a kind that a service makes: the
/// service, the kind and the number, with `#` between them.
pub open spec fn numbered(srv: Seq<char>, kind: Seq<char>, count: int) -> Seq<char> {
    srv + seq!['#'] + kind + seq!['#'] + decimal(count)
}

/// A source of fresh variables, as contracts see it: the service it names
/// them for, and the number of the next one.
pub ghost struct Gen {
    pub srv: Seq<char>,
    pub count: int,
}

/// The source can give one more variable.
pub open spec fn can_fresh(g: Gen) -> bool {
    g.count < i32::MAX
}

/// The source after it has given a variable.
pub open spec fn bump(g: Gen) -> Gen {
    Gen { srv: g.srv, count: g.count + 1 }
}

/// The type variable that the source gives next.
pub open spec fn tyvar_at(g: Gen) -> Ty {
    Ty::Tyvar { name: numbered(g.srv, "tyvar"@, g.count) }
}

/// The metavariable that the source gives next.
pub open spec fn meta_at(g: Gen) -> Ty {
    Ty::Meta { name: numbered(g.srv, "meta"@, g.count) }
}

/// The name of a type variable or metavariable; of any other type, the
/// empty name.
pub open spec fn name_of(t: Ty) -> Seq<char> {
    match t {
        Ty::Tyvar { name } => name,
        Ty::Meta { name } => name,
        _ => Seq::empty(),
    }
}

/// The sequence with `n` at its end, unless it holds `n` already.
pub open spec fn with_name(acc: Seq<Seq<char>>, n: Seq<char>) -> Seq<Seq<char>> {
    crate::names::with_name(acc, n)
}

/// Where the chain of metavariables that starts at `name` ends: no type
/// where `name` is not bound; else the first type on the chain that is no
/// bound metavariable.
pub open spec fn bottom(sigma_m: TyMap, name: Seq<char>, fuel: nat) -> Option<Option<Ty>>
    decreases fuel,
{
    if !sigma_m.contains_key(name) {
        Some(None)
    } else {
        match sigma_m[name] {
            Ty::Meta { name: next } => if sigma_m.contains_key(next) {
                if fuel == 0 {
                    None
                } else {
                    bottom(sigma_m, next, (fuel - 1) as nat)
                }
            } else {
                Some(Some(Ty::Meta { name: next }))
            },
            t => Some(Some(t)),
        }
    }
}

/// A fresh type variable for each parameter of a polymorphic type from the
/// `i`-th on: the new variables added to `gammas`, the map from each
/// parameter to its new variable added to `renaming`, and the source after
/// it has given them. `None` where a parameter is no type variable or the
/// source is used up.
pub open spec fn refresh(pars: Seq<Ty>, i: nat, gammas: Seq<Ty>, renaming: TyMap, g: Gen) -> Option<
    (Seq<Ty>, TyMap, Gen),
>
    decreases pars.len() - i,
{
    if i >= pars.len() {
        Some((gammas, renaming, g))
    } else if can_fresh(g) && pars[i as int] is Tyvar {
        refresh(
            pars,
            i + 1,
            gammas.push(tyvar_at(g)),
            renaming.insert(name_of(pars[i as int]), tyvar_at(g)),
            bump(g),
        )
    } else {
        None
    }
}

/// The type with each type variable that `map` binds replaced by what `map`
/// gives for it, and each metavariable by the substituted end of its
/// chain. The parameters of a polymorphic type are renamed to fresh type
/// variables first. Returns the type and the source of type variables
/// after.
pub open spec fn subst_ty(g: Gen, ty: Ty, map: TyMap, sigma_m: TyMap, fuel: nat) -> Option<
    (Ty, Gen),
>
    decreases fuel, ty, 0nat,
{
    match ty {
        Ty::Int => Some((ty, g)),
        Ty::Bool => Some((ty, g)),
        Ty::Unit => Some((ty, g)),
        Ty::Action => Some((ty, g)),
        Ty::Tyvar { name } => Some(
            (
                if map.contains_key(name) {
                    map[name]
                } else {
                    ty
                },
                g,
            ),
        ),
        Ty::Fun { par_types, ret_type } => match subst_tys(g, par_types, map, sigma_m, fuel) {
            Some((pars, g1)) => match subst_ty(g1, *ret_type, map, sigma_m, fuel) {
                Some((ret, g2)) => Some((Ty::Fun { par_types: pars, ret_type: Box::new(ret) }, g2)),
                None => None,
            },
            None => None,
        },
        Ty::Poly { tyvars, poly_type } => match refresh(tyvars, 0, Seq::empty(), Map::empty(), g) {
            Some((gammas, renaming, g1)) => match subst_ty(
                g1,
                *poly_type,
                renaming,
                sigma_m,
                fuel,
            ) {
                Some((renamed, g2)) => if fuel == 0 {
                    None
                } else {
                    match subst_ty(g2, renamed, map, sigma_m, (fuel - 1) as nat) {
                        Some((body, g3)) => Some(
                            (Ty::Poly { tyvars: gammas, poly_type: Box::new(body) }, g3),
                        ),
                        None => None,
                    }
                },
                None => None,
            },
            None => None,
        },
        Ty::Meta { name } => match bottom(sigma_m, name, fuel) {
            None => None,
            Some(None) => Some((ty, g)),
            Some(Some(t)) => if fuel == 0 {
                None
            } else {
                subst_ty(g, t, map, sigma_m, (fuel - 1) as nat)
            },
        },
    }
}

/// The substitution applied to each type of a list, from the first to the
/// last.
pub open spec fn subst_tys(g: Gen, tys: Seq<Ty>, map: TyMap, sigma_m: TyMap, fuel: nat) -> Option<
    (Seq<Ty>, Gen),
>
    decreases fuel, tys, tys.len() + 1,
{
    subst_tys_from(g, tys, 0, Seq::empty(), map, sigma_m, fuel)
}

/// The substitution applied to the types of the list from the `i`-th on,
/// the results added to `done`.
pub open spec fn subst_tys_from(
    g: Gen,
    tys: Seq<Ty>,
    i: nat,
    done: Seq<Ty>,
    map: TyMap,
    sigma_m: TyMap,
    fuel: nat,
) -> Option<(Seq<Ty>, Gen)>
    decreases fuel, tys, tys.len() - i,
{
    if i >= tys.len() {
        Some((done, g))
    } else {
        match subst_ty(g, tys[i as int], map, sigma_m, fuel) {
            Some((t, g1)) => subst_tys_from(g1, tys, i + 1, done.push(t), map, sigma_m, fuel),
            None => None,
        }
    }
}

/// `acc` with the names of the metavariables of `ty` added, each once, in
/// the order in which they occur.
pub open spec fn metas_into(acc: Seq<Seq<char>>, ty: Ty) -> Seq<Seq<char>>
    decreases ty,
{
    match ty {
        Ty::Fun { par_types, ret_type } => metas_into(metas_into_all(acc, par_types), *ret_type),
        Ty::Meta { name } => with_name(acc, name),
        Ty::Poly { tyvars, poly_type } => metas_into(acc, *poly_type),
        _ => acc,
    }
}

/// `acc` with the names of the metavariables of each type of the list
/// added.
pub open spec fn metas_into_all(acc: Seq<Seq<char>>, tys: Seq<Ty>) -> Seq<Seq<char>>
    decreases tys,
{
    if tys.len() == 0 {
        acc
    } else {
        metas_into(metas_into_all(acc, tys.drop_last()), tys.last())
    }
}

/// The names of the metavariables of `ty`, each once, in the order in which
/// they occur.
pub open spec fn metas(ty: Ty) -> Seq<Seq<char>> {
    metas_into(Seq::empty(), ty)
}

/// The unbound metavariable at the end of the chain that starts at `meta`,
/// if the chain ends in one.
pub open spec fn root_of(sigma_m: TyMap, meta: Seq<char>, fuel: nat) -> Option<Option<Seq<char>>>
    decreases fuel,
{
    if !sigma_m.contains_key(meta) {
        Some(Some(meta))
    } else {
        match sigma_m[meta] {
            Ty::Meta { name } => if fuel == 0 {
                None
            } else {
                root_of(sigma_m, name, (fuel - 1) as nat)
            },
            _ => Some(None),
        }
    }
}

/// `acc` with the unbound metavariables added in which the chains of the
/// metavariables of `ty` end.
pub open spec fn roots_into(acc: Seq<Seq<char>>, sigma_m: TyMap, ty: Ty, fuel: nat) -> Option<
    Seq<Seq<char>>,
>
    decreases ty, 0nat,
{
    match ty {
        Ty::Fun { par_types, ret_type } => match roots_into_all(acc, sigma_m, par_types, 0, fuel) {
            Some(acc1) => roots_into(acc1, sigma_m, *ret_type, fuel),
            None => None,
        },
        Ty::Meta { name } => match root_of(sigma_m, name, fuel) {
            None => None,
            Some(Some(m)) => Some(with_name(acc, m)),
            Some(None) => Some(acc),
        },
        Ty::Poly { tyvars, poly_type } => roots_into(acc, sigma_m, *poly_type, fuel),
        _ => Some(acc),
    }
}

/// `roots_into` for each type of the list from the `i`-th on, in order.
pub open spec fn roots_into_all(
    acc: Seq<Seq<char>>,
    sigma_m: TyMap,
    tys: Seq<Ty>,
    i: nat,
    fuel: nat,
) -> Option<Seq<Seq<char>>>
    decreases tys, tys.len() - i,
{
    if i >= tys.len() {
        Some(acc)
    } else {
        match roots_into(acc, sigma_m, tys[i as int], fuel) {
            Some(acc1) => roots_into_all(acc1, sigma_m, tys, i + 1, fuel),
            None => None,
        }
    }
}

/// Whether `meta` occurs in `ty`, or in what a metavariable of `ty` is
/// bound to, and so on. The metavariables of a type are followed in the
/// order in which they occur, up to the first that leads to `meta`; `None`
/// where one that is followed is not bound.
pub open spec fn reaches(sigma_m: TyMap, meta: Seq<char>, ty: Ty, fuel: nat) -> Option<bool>
    decreases fuel, 1nat, 0nat,
{
    if metas(ty).contains(meta) {
        Some(true)
    } else {
        reaches_from(sigma_m, meta, metas(ty), 0, fuel)
    }
}

/// `reaches`, for what the metavariables of `ms` from the `i`-th on are
/// bound to.
pub open spec fn reaches_from(
    sigma_m: TyMap,
    meta: Seq<char>,
    ms: Seq<Seq<char>>,
    i: nat,
    fuel: nat,
) -> Option<bool>
    decreases fuel, 0nat, ms.len() - i,
{
    if i >= ms.len() {
        Some(false)
    } else if !sigma_m.contains_key(ms[i as int]) || fuel == 0 {
        None
    } else {
        match reaches(sigma_m, meta, sigma_m[ms[i as int]], (fuel - 1) as nat) {
            None => None,
            Some(true) => Some(true),
            Some(false) => reaches_from(sigma_m, meta, ms, i + 1, fuel),
        }
    }
}

/// The variables in scope with their types, in the order in which they
/// were declared.
pub ghost struct TyEnv {
    pub keys: Seq<Seq<char>>,
    pub types: TyMap,
}

/// Whether `meta` reaches into the type of any variable of `sigma_v` from
/// the `i`-th on, the variables taken in order up to the first that it
/// reaches into.
pub open spec fn in_any_from(
    meta: Seq<char>,
    sigma_m: TyMap,
    sigma_v: TyEnv,
    i: nat,
    fuel: nat,
) -> Option<bool>
    decreases sigma_v.keys.len() - i,
{
    if i >= sigma_v.keys.len() {
        Some(false)
    } else {
        match reaches(sigma_m, meta, sigma_v.types[sigma_v.keys[i as int]], fuel) {
            None => None,
            Some(true) => Some(true),
            Some(false) => in_any_from(meta, sigma_m, sigma_v, i + 1, fuel),
        }
    }
}

/// Whether `meta` is the name of a variable in scope or reaches into the
/// type of one.
pub open spec fn in_sigma_v(meta: Seq<char>, sigma_m: TyMap, sigma_v: TyEnv, fuel: nat) -> Option<
    bool,
> {
    if sigma_v.types.contains_key(meta) {
        Some(true)
    } else {
        in_any_from(meta, sigma_m, sigma_v, 0, fuel)
    }
}

/// The names of `ms` from the `i`-th on that are not in scope by
/// `in_sigma_v`, added to `acc`.
pub open spec fn loose_from(
    acc: Seq<Seq<char>>,
    ms: Seq<Seq<char>>,
    i: nat,
    sigma_m: TyMap,
    sigma_v: TyEnv,
    fuel: nat,
) -> Option<Seq<Seq<char>>>
    decreases ms.len() - i,
{
    if i >= ms.len() {
        Some(acc)
    } else {
        match in_sigma_v(ms[i as int], sigma_m, sigma_v, fuel) {
            None => None,
            Some(true) => loose_from(acc, ms, i + 1, sigma_m, sigma_v, fuel),
            Some(false) => loose_from(
                with_name(acc, ms[i as int]),
                ms,
                i + 1,
                sigma_m,
                sigma_v,
                fuel,
            ),
        }
    }
}

/// Each name of `ms` from the `i`-th on bound, in order, to a fresh type
/// variable: the new variables added to `vars`, the bindings added to
/// `sigma_m`, and the source after.
pub open spec fn bind_each(
    ms: Seq<Seq<char>>,
    i: nat,
    vars: Seq<Ty>,
    sigma_m: TyMap,
    g: Gen,
) -> Option<(Seq<Ty>, TyMap, Gen)>
    decreases ms.len() - i,
{
    if i >= ms.len() {
        Some((vars, sigma_m, g))
    } else if can_fresh(g) {
        bind_each(
            ms,
            i + 1,
            vars.push(tyvar_at(g)),
            sigma_m.insert(ms[i as int], tyvar_at(g)),
            bump(g),
        )
    } else {
        None
    }
}

/// The type made polymorphic in the metavariables that it ends in and that
/// are not in scope: each is bound to a fresh type variable, and these are
/// the parameters of the result.
pub open spec fn generalized(sigma_m: TyMap, sigma_v: TyEnv, ty: Ty, g: Gen, fuel: nat) -> Option<
    (Ty, TyMap, Gen),
> {
    match roots_into(Seq::empty(), sigma_m, ty, fuel) {
        Some(roots) => match loose_from(Seq::empty(), roots, 0, sigma_m, sigma_v, fuel) {
            Some(loose) => match bind_each(loose, 0, Seq::empty(), sigma_m, g) {
                Some((vars, sigma1, g1)) => Some(
                    (Ty::Poly { tyvars: vars, poly_type: Box::new(ty) }, sigma1, g1),
                ),
                None => None,
            },
            None => None,
        },
        None => None,
    }
}

/// A fresh metavariable for each parameter of a polymorphic type from the
/// `i`-th on: the map from each parameter to its metavariable, added to
/// `m`, and the source after.
pub open spec fn meta_for_each(pars: Seq<Ty>, i: nat, m: TyMap, g: Gen) -> Option<(TyMap, Gen)>
    decreases pars.len() - i,
{
    if i >= pars.len() {
        Some((m, g))
    } else if can_fresh(g) && pars[i as int] is Tyvar {
        meta_for_each(pars, i + 1, m.insert(name_of(pars[i as int]), meta_at(g)), bump(g))
    } else {
        None
    }
}

/// The state of an inference: what the metavariables are bound to, and the
/// sources of fresh metavariables and type variables.
pub ghost struct Store {
    pub sigma_m: TyMap,
    pub metas: Gen,
    pub tyvars: Gen,
}

/// A polymorphic type with a fresh metavariable in place of each
/// parameter; any other type as it is.
pub open spec fn instantiated(s: Store, poly: Ty, fuel: nat) -> Option<(Ty, Store)> {
    match poly {
        Ty::Poly { tyvars, poly_type } => match meta_for_each(tyvars, 0, Map::empty(), s.metas) {
            Some((m, metas1)) => match subst_ty(s.tyvars, *poly_type, m, s.sigma_m, fuel) {
                Some((t, tyvars1)) => Some(
                    (t, Store { sigma_m: s.sigma_m, metas: metas1, tyvars: tyvars1 }),
                ),
                None => None,
            },
            None => None,
        },
        _ => Some((poly, s)),
    }
}

/// What `format!` gives for two types that cannot be unified: the message
/// that names both, in red.
pub uninterp spec fn incompatible_text(ty1: Ty, ty2: Ty) -> Seq<char>;

/// The message for two polymorphic types with different numbers of
/// parameters: the text, in red.
pub open spec fn poly_lengths_text() -> Seq<char> {
    "\x1B[31munification error, poly tyvars lengths differ"@
}

/// The message for a parameter of a polymorphic type that is no type
/// variable.
pub open spec fn non_tyvar_text() -> Seq<char> {
    "non tyvar within polytype args"@
}

/// The message for two different type variables.
pub open spec fn different_tyvars_text() -> Seq<char> {
    "unifying two different tyvars"@
}

/// The message for a metavariable that occurs in the type it is to be
/// bound to.
pub open spec fn occurs_text() -> Seq<char> {
    "ty1==Meta(alpha) in t, while t!=Meta(alpha)"@
}

/// The map from each parameter of one polymorphic type to the parameter of
/// another at the same place, from the `i`-th on, added to `m`. `None`
/// where a parameter of the first is no type variable.
pub open spec fn pair_up(a1: Seq<Ty>, a2: Seq<Ty>, i: nat, m: TyMap) -> Option<TyMap>
    decreases a1.len() - i,
{
    if i >= a1.len() || i >= a2.len() {
        Some(m)
    } else if a1[i as int] is Tyvar {
        pair_up(a1, a2, i + 1, m.insert(name_of(a1[i as int]), a2[i as int]))
    } else {
        None
    }
}

/// Unifies two types: binds metavariables so that the two become equal,
/// or says why they cannot. Returns the verdict and the state after.
///
/// - Equal base types unify. Two function types unify if their parameters
///   do, pair by pair as far as both have one, and then their results.
/// - Two polymorphic types need as many parameters each; the body of the
///   second is unified with that of the first after its parameters have
///   been replaced.
/// - Two type variables unify if they are the same.
/// - A bound metavariable stands for what it is bound to. An unbound one
///   is bound to the other type, unless that is the same metavariable, or
///   holds it.
/// - Any other pair is incompatible.
pub open spec fn unified(s: Store, t1: Ty, t2: Ty, fuel: nat) -> Option<
    (Result<(), Seq<char>>, Store),
>
    decreases fuel, t1, 0nat,
{
    let fallback = if t2 is Meta {
        if fuel == 0 {
            None
        } else {
            unified(s, t2, t1, (fuel - 1) as nat)
        }
    } else {
        Some((Err(incompatible_text(t1, t2)), s))
    };
    match t1 {
        Ty::Int => if t2 is Int {
            Some((Ok(()), s))
        } else {
            fallback
        },
        Ty::Bool => if t2 is Bool {
            Some((Ok(()), s))
        } else {
            fallback
        },
        Ty::Unit => if t2 is Unit {
            Some((Ok(()), s))
        } else {
            fallback
        },
        Ty::Action => if t2 is Action {
            Some((Ok(()), s))
        } else {
            fallback
        },
        Ty::Fun { par_types: lhs, ret_type: r1 } => match t2 {
            Ty::Fun { par_types: rhs, ret_type: r2 } => match unified_all(s, lhs, rhs, 0, fuel) {
                None => None,
                Some((Err(e), s1)) => Some((Err(e), s1)),
                Some((Ok(_), s1)) => unified(s1, *r1, *r2, fuel),
            },
            _ => fallback,
        },
        Ty::Poly { tyvars: a1, poly_type: u1 } => match t2 {
            Ty::Poly { tyvars: a2, poly_type: u2 } => if a1.len() != a2.len() {
                Some((Err(poly_lengths_text()), s))
            } else {
                match pair_up(a1, a2, 0, Map::empty()) {
                    None => Some((Err(non_tyvar_text()), s)),
                    Some(m) => match subst_ty(s.tyvars, *u2, m, s.sigma_m, fuel) {
                        None => None,
                        Some((u2s, g)) => unified(
                            Store { sigma_m: s.sigma_m, metas: s.metas, tyvars: g },
                            *u1,
                            u2s,
                            fuel,
                        ),
                    },
                }
            },
            _ => fallback,
        },
        Ty::Tyvar { name: n1 } => match t2 {
            Ty::Tyvar { name: n2 } => if n1 == n2 {
                Some((Ok(()), s))
            } else {
                Some((Err(different_tyvars_text()), s))
            },
            _ => fallback,
        },
        Ty::Meta { name: alpha } => if s.sigma_m.contains_key(alpha) {
            if fuel == 0 {
                None
            } else {
                unified(s, s.sigma_m[alpha], t2, (fuel - 1) as nat)
            }
        } else {
            match t2 {
                Ty::Meta { name: gamma } => if s.sigma_m.contains_key(gamma) {
                    if fuel == 0 {
                        None
                    } else {
                        unified(s, t1, s.sigma_m[gamma], (fuel - 1) as nat)
                    }
                } else if gamma == alpha {
                    Some((Ok(()), s))
                } else {
                    Some(
                        (
                            Ok(()),
                            Store {
                                sigma_m: s.sigma_m.insert(alpha, t2),
                                metas: s.metas,
                                tyvars: s.tyvars,
                            },
                        ),
                    )
                },
                _ => if metas(t2).contains(alpha) {
                    Some((Err(occurs_text()), s))
                } else {
                    Some(
                        (
                            Ok(()),
                            Store {
                                sigma_m: s.sigma_m.insert(alpha, t2),
                                metas: s.metas,
                                tyvars: s.tyvars,
                            },
                        ),
                    )
                },
            }
        },
    }
}

/// Unifies the types of two lists pair by pair, from the `i`-th pair on, as
/// far as both lists have one, up to the first pair that fails.
pub open spec fn unified_all(s: Store, lhs: Seq<Ty>, rhs: Seq<Ty>, i: nat, fuel: nat) -> Option<
    (Result<(), Seq<char>>, Store),
>
    decreases fuel, lhs, lhs.len() - i,
{
    if i >= lhs.len() || i >= rhs.len() {
        Some((Ok(()), s))
    } else {
        match unified(s, lhs[i as int], rhs[i as int], fuel) {
            None => None,
            Some((Err(e), s1)) => Some((Err(e), s1)),
            Some((Ok(_), s1)) => unified_all(s1, lhs, rhs, i + 1, fuel),
        }
    }
}

/// Whether the identifier `id` is used in `t`: as the term itself, as the
/// function or an argument of an application, or in an operand of an
/// operator or a branch of a conditional. An action block and a lambda use
/// none. Operands are looked at from the left, up to the first that uses
/// it; `None` where a member access is looked at.
pub open spec fn id_used(id: Seq<char>, t: Term) -> Option<bool>
    decreases t,
{
    match t {
        Term::Id { ident } => Some(ident == id),
        Term::Int { .. } => Some(false),
        Term::Bool { .. } => Some(false),
        Term::Action { .. } => Some(false),
        Term::Member { .. } => None,
        Term::Apply { fun, args } => Some(
            (match *fun {
                Term::Id { ident } => ident,
                _ => Seq::empty(),
            }) == id || exists|i: int|
                0 <= i < args.len() && #[trigger] args[i] == (Term::Id { ident: id }),
        ),
        Term::Bop { opd1, opd2, .. } => match id_used(id, *opd1) {
            Some(false) => id_used(id, *opd2),
            other => other,
        },
        Term::Uop { opd, .. } => id_used(id, *opd),
        Term::If { cond, then, elze } => match id_used(id, *cond) {
            Some(false) => match id_used(id, *then) {
                Some(false) => id_used(id, *elze),
                other => other,
            },
            other => other,
        },
        Term::Lambda { .. } => Some(false),
    }
}

/// What an inference step gives: the outcome, or the message of a type
/// error, and the state after; `None` where it faults or runs out of fuel.
pub type Step1<T> = Option<(Result<T, Seq<char>>, Store)>;

/// A failure carried over from a step to what depends on it.
pub open spec fn carry<A, B>(r: Step1<A>) -> Step1<B> {
    match r {
        Some((Err(e), s)) => Some((Err(e), s)),
        _ => None,
    }
}

/// The type that the operands of a binary operator must have.
pub open spec fn operand_ty(bop: Binop) -> Ty {
    match bop {
        Binop::And => Ty::Bool,
        Binop::Or => Ty::Bool,
        _ => Ty::Int,
    }
}

/// The type of what a binary operator gives.
pub open spec fn result_ty(bop: Binop) -> Ty {
    match bop {
        Binop::Add => Ty::Int,
        Binop::Sub => Ty::Int,
        Binop::Mul => Ty::Int,
        Binop::Div => Ty::Int,
        _ => Ty::Bool,
    }
}

/// The type of the operand and of the result of a unary operator.
pub open spec fn uop_ty(uop: Uop) -> Ty {
    match uop {
        Uop::Neg => Ty::Int,
        Uop::Not => Ty::Bool,
    }
}

/// The state with one metavariable taken from its source.
pub open spec fn after_meta(s: Store) -> Store {
    Store { sigma_m: s.sigma_m, metas: bump(s.metas), tyvars: s.tyvars }
}

/// Unifies `t` with `want` and, where that succeeds, gives `result`.
pub open spec fn unify_then(s: Store, t: Ty, want: Ty, result: Ty, fuel: nat) -> Step1<Ty> {
    match unified(s, t, want, fuel) {
        Some((Ok(_), s1)) => Some((Ok(result), s1)),
        other => carry(other),
    }
}

/// A fresh metavariable for each parameter of a lambda from the `i`-th on:
/// the metavariables added to `metas`, the parameters with them as their
/// types added to `env`, and the source after. `None` where a parameter is
/// no identifier or the source is used up.
pub open spec fn lambda_pars(pars: Seq<Term>, i: nat, metas: Seq<Ty>, env: TyMap, g: Gen) -> Option<
    (Seq<Ty>, TyMap, Gen),
>
    decreases pars.len() - i,
{
    if i >= pars.len() {
        Some((metas, env, g))
    } else {
        match pars[i as int] {
            Term::Id { ident } => if can_fresh(g) {
                lambda_pars(
                    pars,
                    i + 1,
                    metas.push(meta_at(g)),
                    env.insert(ident, meta_at(g)),
                    bump(g),
                )
            } else {
                None
            },
            _ => None,
        }
    }
}

/// The type of `e`, given the types of the variables in scope.
///
/// - An identifier has the type of its variable, instantiated; it must be
///   in scope.
/// - An operator wants operands of its type and gives its result type; a
///   conditional wants a boolean and two branches of one type.
/// - An application unifies the type of the function with a function type
///   from the types of the arguments to a fresh metavariable, which is the
///   type of the application.
/// - A lambda gives each parameter a fresh metavariable as its type and has
///   the function type from these to the type of its body.
/// - An action block has the type `Action` if each action in it checks and
///   each assignment has a source of the type of its destination.
pub open spec fn checked(sigma_v: TyMap, s: Store, e: Term, fuel: nat) -> Step1<Ty>
    decreases e, 0nat,
{
    match e {
        Term::Id { ident } => if sigma_v.contains_key(ident) {
            match instantiated(s, sigma_v[ident], fuel) {
                Some((t, s1)) => Some((Ok(t), s1)),
                None => None,
            }
        } else {
            None
        },
        Term::Int { .. } => Some((Ok(Ty::Int), s)),
        Term::Bool { .. } => Some((Ok(Ty::Bool), s)),
        Term::Action { stmts } => match checked_steps(sigma_v, s, stmts, 0, fuel) {
            Some((Ok(_), s1)) => Some((Ok(Ty::Action), s1)),
            other => carry(other),
        },
        Term::Member { .. } => None,
        Term::Apply { fun, args } => match checked(sigma_v, s, *fun, fuel) {
            Some((Ok(fun_type), s1)) => match checked_all(
                sigma_v,
                s1,
                args,
                0,
                Seq::empty(),
                fuel,
            ) {
                Some((Ok(arg_types), s2)) => if can_fresh(s2.metas) {
                    unify_then(
                        after_meta(s2),
                        fun_type,
                        Ty::Fun { par_types: arg_types, ret_type: Box::new(meta_at(s2.metas)) },
                        meta_at(s2.metas),
                        fuel,
                    )
                } else {
                    None
                },
                other => carry(other),
            },
            other => carry(other),
        },
        Term::Bop { opd1, opd2, bop } => match checked(sigma_v, s, *opd1, fuel) {
            Some((Ok(t1), s1)) => match checked(sigma_v, s1, *opd2, fuel) {
                Some((Ok(t2), s2)) => match unified(s2, t1, operand_ty(bop), fuel) {
                    Some((Ok(_), s3)) => unify_then(s3, t2, operand_ty(bop), result_ty(bop), fuel),
                    other => carry(other),
                },
                other => carry(other),
            },
            other => carry(other),
        },
        Term::Uop { opd, uop } => match checked(sigma_v, s, *opd, fuel) {
            Some((Ok(t), s1)) => unify_then(s1, t, uop_ty(uop), uop_ty(uop), fuel),
            other => carry(other),
        },
        Term::If { cond, then, elze } => match checked(sigma_v, s, *cond, fuel) {
            Some((Ok(tc), s1)) => match checked(sigma_v, s1, *then, fuel) {
                Some((Ok(tt), s2)) => match checked(sigma_v, s2, *elze, fuel) {
                    Some((Ok(te), s3)) => match unified(s3, tc, Ty::Bool, fuel) {
                        Some((Ok(_), s4)) => unify_then(s4, tt, te, tt, fuel),
                        other => carry(other),
                    },
                    other => carry(other),
                },
                other => carry(other),
            },
            other => carry(other),
        },
        Term::Lambda { pars, body } => match lambda_pars(pars, 0, Seq::empty(), sigma_v, s.metas) {
            Some((par_metas, local, g1)) => if can_fresh(g1) {
                match checked(
                    local,
                    Store { sigma_m: s.sigma_m, metas: bump(g1), tyvars: s.tyvars },
                    *body,
                    fuel,
                ) {
                    Some((Ok(t3), s1)) => unify_then(
                        s1,
                        meta_at(g1),
                        t3,
                        Ty::Fun { par_types: par_metas, ret_type: Box::new(meta_at(g1)) },
                        fuel,
                    ),
                    other => carry(other),
                }
            } else {
                None
            },
            None => None,
        },
    }
}

/// The types of the terms of a list from the `i`-th on, in order, added to
/// `done`, up to the first that fails.
pub open spec fn checked_all(
    sigma_v: TyMap,
    s: Store,
    es: Seq<Term>,
    i: nat,
    done: Seq<Ty>,
    fuel: nat,
) -> Step1<Seq<Ty>>
    decreases es, es.len() - i,
{
    if i >= es.len() {
        Some((Ok(done), s))
    } else {
        match checked(sigma_v, s, es[i as int], fuel) {
            Some((Ok(t), s1)) => checked_all(sigma_v, s1, es, i + 1, done.push(t), fuel),
            other => carry(other),
        }
    }
}

/// Checks the steps of an action block from the `i`-th on, in order, up to
/// the first that fails: an action must have a type, and the source of an
/// assignment the type of its destination.
pub open spec fn checked_steps(sigma_v: TyMap, s: Store, ss: Seq<Step>, i: nat, fuel: nat) -> Step1<
    (),
>
    decreases ss, ss.len() - i,
{
    if i >= ss.len() {
        Some((Ok(()), s))
    } else {
        match ss[i as int] {
            Step::Do { act } => match checked(sigma_v, s, act, fuel) {
                Some((Ok(_), s1)) => checked_steps(sigma_v, s1, ss, i + 1, fuel),
                other => carry(other),
            },
            Step::Ass { dst, src } => match checked(sigma_v, s, dst, fuel) {
                Some((Ok(dst_type), s1)) => match checked(sigma_v, s1, src, fuel) {
                    Some((Ok(src_type), s2)) => match unified(s2, dst_type, src_type, fuel) {
                        Some((Ok(_), s3)) => checked_steps(sigma_v, s3, ss, i + 1, fuel),
                        other => carry(other),
                    },
                    other => carry(other),
                },
                other => carry(other),
            },
        }
    }
}

/// The variables in scope once `k` has the type `t`.
pub open spec fn env_with(env: TyEnv, k: Seq<char>, t: Ty) -> TyEnv {
    TyEnv { keys: with_name(env.keys, k), types: env.types.insert(k, t) }
}

/// What a declaration leaves: the verdict, the variables in scope with
/// their types, which of them are public, and the state of the inference.
pub ghost struct Declared {
    pub verdict: Result<(), Seq<char>>,
    pub sigma_v: TyEnv,
    pub pub_access: Map<Seq<char>, bool>,
    pub store: Store,
}

/// Checks a declaration of `name` with the value `val` and enters the name
/// into scope: with the type of its value as it is where the value uses the
/// name, and made polymorphic where not. `is_pub` says whether the
/// declaration is a `Def`, and then whether it is public.
pub open spec fn declared_name(
    sigma_v: TyEnv,
    pub_access: Map<Seq<char>, bool>,
    s: Store,
    name: Seq<char>,
    val: Term,
    is_pub: Option<bool>,
    fuel: nat,
) -> Option<Declared> {
    let access = match is_pub {
        Some(b) => pub_access.insert(name, b),
        None => pub_access,
    };
    match checked(sigma_v.types, s, val, fuel) {
        Some((Ok(src_type), s1)) => match id_used(name, val) {
            Some(true) => Some(
                Declared {
                    verdict: Ok(()),
                    sigma_v: env_with(
                        sigma_v,
                        name,
                        Ty::Poly { tyvars: Seq::empty(), poly_type: Box::new(src_type) },
                    ),
                    pub_access: access,
                    store: s1,
                },
            ),
            Some(false) => match generalized(s1.sigma_m, sigma_v, src_type, s1.tyvars, fuel) {
                Some((t1, sigma_m, tyvars)) => Some(
                    Declared {
                        verdict: Ok(()),
                        sigma_v: env_with(sigma_v, name, t1),
                        pub_access: access,
                        store: Store { sigma_m, metas: s1.metas, tyvars },
                    },
                ),
                None => None,
            },
            None => None,
        },
        Some((Err(e), s1)) => Some(
            Declared { verdict: Err(e), sigma_v, pub_access, store: s1 },
        ),
        None => None,
    }
}

/// What the check of a declaration leaves. An import is accepted as it is;
/// a `Var` and a `Def` are checked by `declared_name`.
pub open spec fn declared(
    sigma_v: TyEnv,
    pub_access: Map<Seq<char>, bool>,
    s: Store,
    decl: Decl,
    fuel: nat,
) -> Option<Declared> {
    match decl {
        Decl::Import { .. } => Some(Declared { verdict: Ok(()), sigma_v, pub_access, store: s }),
        Decl::VarDecl { name, val } => declared_name(
            sigma_v,
            pub_access,
            s,
            name@,
            val@,
            None,
            fuel,
        ),
        Decl::DefDecl { name, val, is_pub } => declared_name(
            sigma_v,
            pub_access,
            s,
            name@,
            val@,
            Some(is_pub),
            fuel,
        ),
    }
}

/// The state in which the check of a program starts: nothing in scope,
/// nothing bound, and both sources at the start of their count for the
/// service `default`.
pub open spec fn initial() -> Declared {
    Declared {
        verdict: Ok(()),
        sigma_v: TyEnv { keys: Seq::empty(), types: Map::empty() },
        pub_access: Map::empty(),
        store: Store {
            sigma_m: Map::empty(),
            metas: Gen { srv: "default"@, count: 0 },
            tyvars: Gen { srv: "default"@, count: 0 },
        },
    }
}

/// What the check of the declarations from the `i`-th on leaves, each
/// checked in the state that the one before left; `None` where one of them
/// has no outcome or is ill typed.
pub open spec fn declared_all(decls: Seq<Decl>, i: nat, d: Declared, fuel: nat) -> Option<Declared>
    decreases decls.len() - i,
{
    if i >= decls.len() {
        Some(d)
    } else {
        match declared(d.sigma_v, d.pub_access, d.store, decls[i as int], fuel) {
            Some(d1) => if d1.verdict is Ok {
                declared_all(decls, i + 1, d1, fuel)
            } else {
                None
            },
            None => None,
        }
    }
}

} // verus!
