//! Type inference for declarations: types with metavariables, unification,
//! generalisation and instantiation.
use crate::frontend::meerast::{
    steps_view, terms_of, Binop, Decl, Expr, Service, SglStmt, Stmt, Term, Uop,
};
use crate::frontend::typing::{
    bind_each, bottom, bump, can_fresh, checked, checked_all, checked_steps, declared,
    declared_all, declared_name, generalized, id_used, in_any_from, in_sigma_v, incompatible_text,
    initial, instantiated, lambda_pars, loose_from, meta_at, meta_for_each, metas, metas_into,
    metas_into_all, numbered, operand_ty, pair_up, poly_lengths_text, reaches, reaches_from,
    refresh, result_ty, root_of, roots_into, roots_into_all, subst_ty, subst_tys, subst_tys_from,
    tyvar_at, unified, unified_all, unify_then, uop_ty, Declared, Gen, Store, TyEnv,
};
use crate::names::{names_of, NameMap, NameSet};
use inline_colorization::{color_red, color_reset};
use vstd::prelude::*;

verus! {

/// A type of the language.
#[derive(Debug, PartialEq, Eq, Hash)]
pub enum Type {
    Int,
    Bool,
    Unit,
    Fun { par_types: Vec<Type>, ret_type: Box<Type> },
    Action,
    /// A type variable, bound by an enclosing `Poly`.
    Tyvar { name: String },
    /// A metavariable: a type not yet known, to be found by unification.
    Meta { name: String },
    /// A type that holds for every choice of its type variables.
    Poly { tyvars: Vec<Type>, poly_type: Box<Type> },
}

/// The type that a `Type` denotes.
pub ghost enum Ty {
    Int,
    Bool,
    Unit,
    Fun { par_types: Seq<Ty>, ret_type: Box<Ty> },
    Action,
    Tyvar { name: Seq<char> },
    Meta { name: Seq<char> },
    Poly { tyvars: Seq<Ty>, poly_type: Box<Ty> },
}

/// The type that a `Type` denotes.
pub open spec fn ty_of(t: Type) -> Ty
    decreases t,
{
    match t {
        Type::Int => Ty::Int,
        Type::Bool => Ty::Bool,
        Type::Unit => Ty::Unit,
        Type::Fun { par_types, ret_type } => Ty::Fun {
            par_types: tys_of(par_types@),
            ret_type: Box::new(ty_of(*ret_type)),
        },
        Type::Action => Ty::Action,
        Type::Tyvar { name } => Ty::Tyvar { name: name@ },
        Type::Meta { name } => Ty::Meta { name: name@ },
        Type::Poly { tyvars, poly_type } => Ty::Poly {
            tyvars: tys_of(tyvars@),
            poly_type: Box::new(ty_of(*poly_type)),
        },
    }
}

/// The types that a list of `Type` denotes, in order.
pub open spec fn tys_of(ts: Seq<Type>) -> Seq<Ty>
    decreases ts,
{
    Seq::new(
        ts.len(),
        |i: int|
            if 0 <= i < ts.len() {
                ty_of(ts[i])
            } else {
                Ty::Unit
            },
    )
}

impl View for Type {
    type V = Ty;

    open spec fn view(&self) -> Ty {
        ty_of(*self)
    }
}

impl DeepView for Type {
    type V = Ty;

    open spec fn deep_view(&self) -> Ty {
        ty_of(*self)
    }
}

/// Copies a type.
pub fn clone_type(t: &Type) -> (r: Type)
    ensures
        r@ == t@,
    decreases t,
{
    match t {
        Type::Int => Type::Int,
        Type::Bool => Type::Bool,
        Type::Unit => Type::Unit,
        Type::Fun { par_types, ret_type } => Type::Fun {
            par_types: clone_types(par_types),
            ret_type: Box::new(clone_type(ret_type)),
        },
        Type::Action => Type::Action,
        Type::Tyvar { name } => Type::Tyvar { name: name.clone() },
        Type::Meta { name } => Type::Meta { name: name.clone() },
        Type::Poly { tyvars, poly_type } => Type::Poly {
            tyvars: clone_types(tyvars),
            poly_type: Box::new(clone_type(poly_type)),
        },
    }
}

/// Copies a list of types.
pub fn clone_types(ts: &Vec<Type>) -> (r: Vec<Type>)
    ensures
        tys_of(r@) == tys_of(ts@),
    decreases ts,
{
    let mut out: Vec<Type> = Vec::new();
    let mut i: usize = 0;
    while i < ts.len()
        invariant
            i <= ts.len(),
            out@.len() == i,
            forall|j: int| 0 <= j < i ==> out@[j]@ == ts@[j]@,
        decreases ts.len() - i,
    {
        out.push(clone_type(&ts[i]));
        i += 1;
    }
    assert(tys_of(out@) =~= tys_of(ts@));
    out
}

impl Clone for Type {
    fn clone(&self) -> (r: Self)
        ensures
            r@ == self@,
    {
        clone_type(self)
    }
}

/// The name of a fresh variable, made by `format!`: the service, the kind
/// and the count in decimal, with `#` between them.
#[verifier::external_body]
fn numbered_name(srv: &String, kind: &str, count: i32) -> (r: String)
    ensures
        r@ == numbered(srv@, kind@, count as int),
{
    format!("{}#{}#{}", srv, kind, count)
}

/// A source of fresh type variables.
#[derive(Debug)]
pub struct FreshTyvarGenerator {
    pub srv: String,
    pub count: i32,
}

impl View for FreshTyvarGenerator {
    type V = Gen;

    open spec fn view(&self) -> Gen {
        Gen { srv: self.srv@, count: self.count as int }
    }
}

impl FreshTyvarGenerator {
    /// A source for the service `srv` that starts to count at `start`.
    pub fn new(srv: &str, start: i32) -> (r: FreshTyvarGenerator)
        ensures
            r@ == (Gen { srv: srv@, count: start as int }),
    {
        FreshTyvarGenerator { srv: srv.to_owned(), count: start }
    }

    /// A type variable that this source has not given before.
    pub fn fresh(&mut self) -> (r: Type)
        requires
            can_fresh(old(self)@),
        ensures
            r@ == tyvar_at(old(self)@),
            final(self)@ == bump(old(self)@),
    {
        let ret = Type::Tyvar { name: numbered_name(&self.srv, "tyvar", self.count) };
        self.count = self.count + 1;
        ret
    }
}

/// A source of fresh metavariables.
#[derive(Debug)]
pub struct FreshMetaGenerator {
    pub srv: String,
    pub count: i32,
}

impl View for FreshMetaGenerator {
    type V = Gen;

    open spec fn view(&self) -> Gen {
        Gen { srv: self.srv@, count: self.count as int }
    }
}

impl FreshMetaGenerator {
    /// A source for the service `srv` that starts to count at `start`.
    pub fn new(srv: &str, start: i32) -> (r: FreshMetaGenerator)
        ensures
            r@ == (Gen { srv: srv@, count: start as int }),
    {
        FreshMetaGenerator { srv: srv.to_owned(), count: start }
    }

    /// A metavariable that this source has not given before.
    pub fn fresh(&mut self) -> (r: Type)
        requires
            can_fresh(old(self)@),
        ensures
            r@ == meta_at(old(self)@),
            final(self)@ == bump(old(self)@),
    {
        let ret = Type::Meta { name: numbered_name(&self.srv, "meta", self.count) };
        self.count = self.count + 1;
        ret
    }
}

/// The variables of a map with their types, in the order in which they were
/// entered.
pub open spec fn env_of(m: &NameMap<Type>) -> TyEnv {
    TyEnv { keys: names_of(m.keys@), types: m@ }
}

/// Copies a map from names to types.
pub fn clone_type_map(m: &NameMap<Type>) -> (r: NameMap<Type>)
    requires
        m.wf(),
    ensures
        r.wf(),
        r@ == m@,
        env_of(&r) == env_of(m),
{
    let mut keys: Vec<String> = Vec::new();
    let mut vals: Vec<Type> = Vec::new();
    let mut i: usize = 0;
    while i < m.keys.len()
        invariant
            i <= m.keys@.len(),
            m.wf(),
            keys@.len() == i,
            vals@.len() == i,
            forall|j: int| 0 <= j < i ==> keys@[j]@ == m.keys@[j]@,
            forall|j: int| 0 <= j < i ==> vals@[j]@ == m.vals@[j]@,
        decreases m.keys@.len() - i,
    {
        keys.push(m.keys[i].clone());
        vals.push(clone_type(&m.vals[i]));
        i += 1;
    }
    let r = NameMap { keys, vals };
    assert(names_of(r.keys@) =~= names_of(m.keys@));
    assert(r@ =~= m@);
    r
}

/// Where the chain of metavariables that starts at `name` ends.
fn bottom_of(sigma_m: &NameMap<Type>, name: &String, fuel: usize) -> (r: Option<Option<Type>>)
    requires
        sigma_m.wf(),
    ensures
        r.deep_view() == bottom(sigma_m@, name@, fuel as nat),
    decreases fuel,
{
    match sigma_m.get(name) {
        None => Some(None),
        Some(val) => match val {
            Type::Meta { name: next } => {
                if sigma_m.contains_key(next) {
                    if fuel == 0 {
                        None
                    } else {
                        bottom_of(sigma_m, next, fuel - 1)
                    }
                } else {
                    Some(Some(Type::Meta { name: next.clone() }))
                }
            },
            _ => Some(Some(clone_type(val))),
        },
    }
}

/// The type at the end of the chain of metavariables that starts at
/// `meta_name`: no type where `meta_name` is not bound; else the first type
/// on the chain that is no bound metavariable. The outer `None` says that
/// the chain is longer than `fuel`.
pub fn lookup_sigma_m_bottom(sigma_m: &NameMap<Type>, meta_name: &str, fuel: usize) -> (r: Option<
    Option<Type>,
>)
    requires
        sigma_m.wf(),
    ensures
        r.deep_view() == bottom(sigma_m@, meta_name@, fuel as nat),
{
    bottom_of(sigma_m, &meta_name.to_owned(), fuel)
}

/// A fresh type variable for each parameter of a polymorphic type.
fn refresh_pars(gen_fresh_tyvar: &mut FreshTyvarGenerator, pars: &Vec<Type>) -> (r: Option<
    (Vec<Type>, NameMap<Type>),
>)
    ensures
        match refresh(tys_of(pars@), 0, Seq::empty(), Map::empty(), old(gen_fresh_tyvar)@) {
            Some((gammas, renaming, g)) => r matches Some((v, m)) && tys_of(v@) == gammas && m.wf()
                && m@ == renaming && final(gen_fresh_tyvar)@ == g,
            None => r is None,
        },
{
    let ghost g0 = gen_fresh_tyvar@;
    let ghost ps = tys_of(pars@);
    let mut gammas: Vec<Type> = Vec::new();
    let mut renaming: NameMap<Type> = NameMap::new();
    let mut i: usize = 0;
    proof {
        assert(tys_of(gammas@) =~= Seq::<Ty>::empty());
    }
    while i < pars.len()
        invariant
            i <= pars.len(),
            ps == tys_of(pars@),
            g0 == old(gen_fresh_tyvar)@,
            renaming.wf(),
            refresh(ps, 0, Seq::empty(), Map::empty(), g0) == refresh(
                ps,
                i as nat,
                tys_of(gammas@),
                renaming@,
                gen_fresh_tyvar@,
            ),
        decreases pars.len() - i,
    {
        assert(ps[i as int] == pars@[i as int]@);
        if gen_fresh_tyvar.count == i32::MAX {
            return None;
        }
        let name = match &pars[i] {
            Type::Tyvar { name } => name.clone(),
            _ => {
                return None;
            },
        };
        let ghost before = tys_of(gammas@);
        let new_tyvar = gen_fresh_tyvar.fresh();
        gammas.push(clone_type(&new_tyvar));
        renaming.insert(name, new_tyvar);
        proof {
            assert(tys_of(gammas@) =~= before.push(new_tyvar@));
        }
        i += 1;
    }
    Some((gammas, renaming))
}

/// The substitution of `subst`, with the generator left in no particular
/// state where there is no result.
fn subst_in(
    gen_fresh_tyvar: &mut FreshTyvarGenerator,
    ty: &Type,
    tyvar_to_type: &NameMap<Type>,
    sigma_m: &NameMap<Type>,
    fuel: usize,
) -> (r: Option<Type>)
    requires
        tyvar_to_type.wf(),
        sigma_m.wf(),
    ensures
        match subst_ty(old(gen_fresh_tyvar)@, ty@, tyvar_to_type@, sigma_m@, fuel as nat) {
            Some((t, g)) => r matches Some(x) && x@ == t && final(gen_fresh_tyvar)@ == g,
            None => r is None,
        },
    decreases fuel, ty, 0nat,
{
    match ty {
        Type::Int => Some(Type::Int),
        Type::Bool => Some(Type::Bool),
        Type::Unit => Some(Type::Unit),
        Type::Action => Some(Type::Action),
        Type::Tyvar { name } => match tyvar_to_type.get(name) {
            Some(t) => Some(clone_type(t)),
            None => Some(clone_type(ty)),
        },
        Type::Fun { par_types, ret_type } => {
            let pars = match subst_list(gen_fresh_tyvar, par_types, tyvar_to_type, sigma_m, fuel) {
                Some(pars) => pars,
                None => {
                    return None;
                },
            };
            let ret = match subst_in(gen_fresh_tyvar, ret_type, tyvar_to_type, sigma_m, fuel) {
                Some(ret) => ret,
                None => {
                    return None;
                },
            };
            Some(Type::Fun { par_types: pars, ret_type: Box::new(ret) })
        },
        Type::Poly { tyvars, poly_type } => {
            let (gammas, renaming) = match refresh_pars(gen_fresh_tyvar, tyvars) {
                Some(x) => x,
                None => {
                    return None;
                },
            };
            let renamed = match subst_in(gen_fresh_tyvar, poly_type, &renaming, sigma_m, fuel) {
                Some(t) => t,
                None => {
                    return None;
                },
            };
            if fuel == 0 {
                return None;
            }
            let body = match subst_in(gen_fresh_tyvar, &renamed, tyvar_to_type, sigma_m, fuel - 1) {
                Some(t) => t,
                None => {
                    return None;
                },
            };
            Some(Type::Poly { tyvars: gammas, poly_type: Box::new(body) })
        },
        Type::Meta { name } => match bottom_of(sigma_m, name, fuel) {
            None => None,
            Some(None) => Some(clone_type(ty)),
            Some(Some(t)) => {
                if fuel == 0 {
                    None
                } else {
                    subst_in(gen_fresh_tyvar, &t, tyvar_to_type, sigma_m, fuel - 1)
                }
            },
        },
    }
}

/// The substitution applied to each type of a list, from the first to the
/// last.
fn subst_list(
    gen_fresh_tyvar: &mut FreshTyvarGenerator,
    tys: &Vec<Type>,
    tyvar_to_type: &NameMap<Type>,
    sigma_m: &NameMap<Type>,
    fuel: usize,
) -> (r: Option<Vec<Type>>)
    requires
        tyvar_to_type.wf(),
        sigma_m.wf(),
    ensures
        match subst_tys(
            old(gen_fresh_tyvar)@,
            tys_of(tys@),
            tyvar_to_type@,
            sigma_m@,
            fuel as nat,
        ) {
            Some((ts, g)) => r matches Some(x) && tys_of(x@) == ts && final(gen_fresh_tyvar)@ == g,
            None => r is None,
        },
    decreases fuel, tys, tys@.len() + 1,
{
    let ghost g0 = gen_fresh_tyvar@;
    let ghost ts = tys_of(tys@);
    let mut out: Vec<Type> = Vec::new();
    let mut i: usize = 0;
    proof {
        assert(tys_of(out@) =~= Seq::<Ty>::empty());
    }
    while i < tys.len()
        invariant
            i <= tys.len(),
            ts == tys_of(tys@),
            g0 == old(gen_fresh_tyvar)@,
            tyvar_to_type.wf(),
            sigma_m.wf(),
            subst_tys(g0, ts, tyvar_to_type@, sigma_m@, fuel as nat) == subst_tys_from(
                gen_fresh_tyvar@,
                ts,
                i as nat,
                tys_of(out@),
                tyvar_to_type@,
                sigma_m@,
                fuel as nat,
            ),
        decreases tys.len() - i,
    {
        assert(ts[i as int] == tys@[i as int]@);
        let ghost before = tys_of(out@);
        match subst_in(gen_fresh_tyvar, &tys[i], tyvar_to_type, sigma_m, fuel) {
            Some(t) => {
                out.push(t);
                proof {
                    assert(tys_of(out@) =~= before.push(t@));
                }
            },
            None => {
                return None;
            },
        }
        i += 1;
    }
    Some(out)
}

/// A copy of a generator.
fn clone_tyvar_gen(g: &FreshTyvarGenerator) -> (r: FreshTyvarGenerator)
    ensures
        r@ == g@,
{
    FreshTyvarGenerator { srv: g.srv.clone(), count: g.count }
}

/// A copy of a generator.
fn clone_meta_gen(g: &FreshMetaGenerator) -> (r: FreshMetaGenerator)
    ensures
        r@ == g@,
{
    FreshMetaGenerator { srv: g.srv.clone(), count: g.count }
}

/// The type with each type variable that `tyvar_to_type` binds replaced by
/// what it is bound to, and each metavariable by the substituted end of its
/// chain in `sigma_m`. The parameters of a polymorphic type are renamed to
/// fresh type variables first.
///
/// `None`, with the generator as it was, where a parameter of a polymorphic
/// type is no type variable, where the generator is used up, and where the
/// substitution needs more than `fuel` jumps along chains of metavariables
/// and into renamed bodies.
pub fn subst(
    gen_fresh_tyvar: &mut FreshTyvarGenerator,
    ty: &Type,
    tyvar_to_type: &NameMap<Type>,
    sigma_m: &NameMap<Type>,
    fuel: usize,
) -> (r: Option<Type>)
    requires
        tyvar_to_type.wf(),
        sigma_m.wf(),
    ensures
        match subst_ty(old(gen_fresh_tyvar)@, ty@, tyvar_to_type@, sigma_m@, fuel as nat) {
            Some((t, g)) => r matches Some(x) && x@ == t && final(gen_fresh_tyvar)@ == g,
            None => r is None && final(gen_fresh_tyvar)@ == old(gen_fresh_tyvar)@,
        },
{
    let mut g = clone_tyvar_gen(gen_fresh_tyvar);
    match subst_in(&mut g, ty, tyvar_to_type, sigma_m, fuel) {
        Some(t) => {
            *gen_fresh_tyvar = g;
            Some(t)
        },
        None => None,
    }
}

/// Adds the names of the metavariables of `ty` to `acc`.
fn collect_metas(acc: &mut NameSet, ty: &Type)
    requires
        old(acc).wf(),
    ensures
        final(acc).wf(),
        final(acc).order() == metas_into(old(acc).order(), ty@),
    decreases ty,
{
    match ty {
        Type::Fun { par_types, ret_type } => {
            collect_metas_of_all(acc, par_types);
            collect_metas(acc, ret_type);
        },
        Type::Meta { name } => {
            acc.insert(name.clone());
        },
        Type::Poly { tyvars: _, poly_type } => {
            collect_metas(acc, poly_type);
        },
        _ => {},
    }
}

/// Adds the names of the metavariables of each type of the list to `acc`.
fn collect_metas_of_all(acc: &mut NameSet, tys: &Vec<Type>)
    requires
        old(acc).wf(),
    ensures
        final(acc).wf(),
        final(acc).order() == metas_into_all(old(acc).order(), tys_of(tys@)),
    decreases tys,
{
    let ghost ts = tys_of(tys@);
    let mut i: usize = 0;
    proof {
        assert(ts.take(0) =~= Seq::<Ty>::empty());
    }
    while i < tys.len()
        invariant
            i <= tys.len(),
            ts == tys_of(tys@),
            acc.wf(),
            acc.order() == metas_into_all(old(acc).order(), ts.take(i as int)),
        decreases tys.len() - i,
    {
        collect_metas(acc, &tys[i]);
        proof {
            assert(ts.take(i + 1).drop_last() =~= ts.take(i as int));
            assert(ts.take(i + 1).last() == tys@[i as int]@);
        }
        i += 1;
    }
    proof {
        assert(ts.take(tys@.len() as int) =~= ts);
    }
}

/// The metavariables of `ty`: their names, each once, in the order in
/// which they occur.
pub fn all_metas_in_type(ty: &Type) -> (r: NameSet)
    ensures
        r.wf(),
        r.order() == metas(ty@),
{
    let mut rslt = NameSet::new();
    collect_metas(&mut rslt, ty);
    rslt
}

/// The unbound metavariable at the end of the chain that starts at `meta`,
/// if the chain ends in one.
fn get_bottom_of_meta(sigma_m: &NameMap<Type>, meta: &String, fuel: usize) -> (r: Option<
    Option<String>,
>)
    requires
        sigma_m.wf(),
    ensures
        r.deep_view() == root_of(sigma_m@, meta@, fuel as nat),
    decreases fuel,
{
    match sigma_m.get(meta) {
        Some(val) => match val {
            Type::Meta { name } => {
                if fuel == 0 {
                    None
                } else {
                    get_bottom_of_meta(sigma_m, name, fuel - 1)
                }
            },
            _ => Some(None),
        },
        None => Some(Some(meta.clone())),
    }
}

/// Adds to `acc` the unbound metavariables in which the chains of the
/// metavariables of `ty` end.
fn collect_roots(acc: &mut NameSet, sigma_m: &NameMap<Type>, ty: &Type, fuel: usize) -> (ok: bool)
    requires
        old(acc).wf(),
        sigma_m.wf(),
    ensures
        final(acc).wf(),
        match roots_into(old(acc).order(), sigma_m@, ty@, fuel as nat) {
            Some(names) => ok && final(acc).order() == names,
            None => !ok,
        },
    decreases ty, 0nat,
{
    match ty {
        Type::Fun { par_types, ret_type } => {
            if !collect_roots_of_all(acc, sigma_m, par_types, fuel) {
                return false;
            }
            collect_roots(acc, sigma_m, ret_type, fuel)
        },
        Type::Meta { name } => match get_bottom_of_meta(sigma_m, name, fuel) {
            None => false,
            Some(Some(m)) => {
                acc.insert(m);
                true
            },
            Some(None) => true,
        },
        Type::Poly { tyvars: _, poly_type } => collect_roots(acc, sigma_m, poly_type, fuel),
        _ => true,
    }
}

/// `collect_roots` for each type of the list, from the first to the last.
fn collect_roots_of_all(
    acc: &mut NameSet,
    sigma_m: &NameMap<Type>,
    tys: &Vec<Type>,
    fuel: usize,
) -> (ok: bool)
    requires
        old(acc).wf(),
        sigma_m.wf(),
    ensures
        final(acc).wf(),
        match roots_into_all(old(acc).order(), sigma_m@, tys_of(tys@), 0, fuel as nat) {
            Some(names) => ok && final(acc).order() == names,
            None => !ok,
        },
    decreases tys, tys@.len() + 1,
{
    let ghost ts = tys_of(tys@);
    let mut i: usize = 0;
    while i < tys.len()
        invariant
            i <= tys.len(),
            ts == tys_of(tys@),
            acc.wf(),
            sigma_m.wf(),
            roots_into_all(old(acc).order(), sigma_m@, ts, 0, fuel as nat) == roots_into_all(
                acc.order(),
                sigma_m@,
                ts,
                i as nat,
                fuel as nat,
            ),
        decreases tys.len() - i,
    {
        assert(ts[i as int] == tys@[i as int]@);
        if !collect_roots(acc, sigma_m, &tys[i], fuel) {
            return false;
        }
        i += 1;
    }
    true
}

/// The unbound metavariables in which the chains of the metavariables of
/// `ty` end: their names, each once, in the order in which they are found.
/// `None` where a chain is longer than `fuel`.
pub fn all_metas_in_type_bottom(sigma_m: &NameMap<Type>, ty: &Type, fuel: usize) -> (r: Option<
    NameSet,
>)
    requires
        sigma_m.wf(),
    ensures
        match roots_into(Seq::empty(), sigma_m@, ty@, fuel as nat) {
            Some(names) => r matches Some(set) && set.wf() && set.order() == names,
            None => r is None,
        },
{
    let mut rslt = NameSet::new();
    if collect_roots(&mut rslt, sigma_m, ty, fuel) {
        Some(rslt)
    } else {
        None
    }
}

/// Whether `meta` occurs in `ty`, or in what a metavariable of `ty` is
/// bound to, and so on.
fn meta_is_in_type_rec_sigma_m(
    sigma_m: &NameMap<Type>,
    meta: &String,
    ty: &Type,
    fuel: usize,
) -> (r: Option<bool>)
    requires
        sigma_m.wf(),
    ensures
        r == reaches(sigma_m@, meta@, ty@, fuel as nat),
    decreases fuel,
{
    let all_metas_in_ty = all_metas_in_type(ty);
    if all_metas_in_ty.contains(meta) {
        return Some(true);
    }
    let ghost ms = metas(ty@);
    let mut i: usize = 0;
    while i < all_metas_in_ty.names.len()
        invariant
            i <= all_metas_in_ty.names@.len(),
            sigma_m.wf(),
            ms == all_metas_in_ty.order(),
            reaches(sigma_m@, meta@, ty@, fuel as nat) == reaches_from(
                sigma_m@,
                meta@,
                ms,
                i as nat,
                fuel as nat,
            ),
        decreases all_metas_in_ty.names@.len() - i,
    {
        assert(ms[i as int] == all_metas_in_ty.names@[i as int]@);
        let next = match sigma_m.get(&all_metas_in_ty.names[i]) {
            Some(t) => t,
            None => {
                return None;
            },
        };
        if fuel == 0 {
            return None;
        }
        match meta_is_in_type_rec_sigma_m(sigma_m, meta, next, fuel - 1) {
            None => {
                return None;
            },
            Some(true) => {
                return Some(true);
            },
            Some(false) => {},
        }
        i += 1;
    }
    Some(false)
}

/// Whether `meta` is the name of a variable in scope or reaches into the
/// type of one: whether it occurs in that type, or in what a metavariable
/// of that type is bound to, and so on. The variables are taken in the
/// order in which they were declared, and the metavariables of a type in
/// the order in which they occur, up to the first that leads to `meta`.
///
/// `None` where a metavariable that is followed is not bound, and where
/// the search needs more than `fuel` steps from a metavariable to what it
/// is bound to.
pub fn meta_is_in_sigma_v(
    meta: &str,
    sigma_m: &NameMap<Type>,
    sigma_v: &NameMap<Type>,
    fuel: usize,
) -> (r: Option<bool>)
    requires
        sigma_m.wf(),
        sigma_v.wf(),
    ensures
        r == in_sigma_v(meta@, sigma_m@, env_of(sigma_v), fuel as nat),
{
    let name = meta.to_owned();
    if sigma_v.contains_key(&name) {
        return Some(true);
    }
    let ghost env = env_of(sigma_v);
    let mut i: usize = 0;
    while i < sigma_v.keys.len()
        invariant
            i <= sigma_v.keys@.len(),
            sigma_m.wf(),
            sigma_v.wf(),
            name@ == meta@,
            env == env_of(sigma_v),
            in_sigma_v(meta@, sigma_m@, env, fuel as nat) == in_any_from(
                meta@,
                sigma_m@,
                env,
                i as nat,
                fuel as nat,
            ),
        decreases sigma_v.keys@.len() - i,
    {
        proof {
            sigma_v.lemma_entry(i as int);
            assert(env.keys[i as int] == sigma_v.keys@[i as int]@);
            assert(env.types[env.keys[i as int]] == sigma_v.vals@[i as int]@);
        }
        match meta_is_in_type_rec_sigma_m(sigma_m, &name, &sigma_v.vals[i], fuel) {
            None => {
                return None;
            },
            Some(true) => {
                return Some(true);
            },
            Some(false) => {},
        }
        i += 1;
    }
    Some(false)
}

/// The state of an inference that the three hold.
pub open spec fn store_of(
    sigma_m: &NameMap<Type>,
    gen_fresh_meta: &FreshMetaGenerator,
    gen_fresh_tyvar: &FreshTyvarGenerator,
) -> Store {
    Store { sigma_m: sigma_m@, metas: gen_fresh_meta@, tyvars: gen_fresh_tyvar@ }
}

/// `generalize`, with the map and the generator left in no particular state
/// where there is no result.
#[verifier::loop_isolation(false)]
fn generalize_in(
    sigma_m: &mut NameMap<Type>,
    sigma_v: &NameMap<Type>,
    ungeneralizeded_type: &Type,
    gen_fresh_tyvar: &mut FreshTyvarGenerator,
    fuel: usize,
) -> (r: Option<Type>)
    requires
        old(sigma_m).wf(),
        sigma_v.wf(),
    ensures
        final(sigma_m).wf(),
        match generalized(
            old(sigma_m)@,
            env_of(sigma_v),
            ungeneralizeded_type@,
            old(gen_fresh_tyvar)@,
            fuel as nat,
        ) {
            Some((t, s, g)) => r matches Some(x) && x@ == t && final(sigma_m)@ == s
                && final(gen_fresh_tyvar)@ == g,
            None => r is None,
        },
{
    let ghost sigma0 = sigma_m@;
    let ghost env = env_of(sigma_v);
    let bottom_metas_in_ungen = match all_metas_in_type_bottom(
        sigma_m,
        ungeneralizeded_type,
        fuel,
    ) {
        Some(set) => set,
        None => {
            return None;
        },
    };
    let ghost roots = bottom_metas_in_ungen.order();
    let mut metas_in_ungen_not_in_sigma_v = NameSet::new();
    let mut i: usize = 0;
    while i < bottom_metas_in_ungen.names.len()
        invariant
            i <= bottom_metas_in_ungen.names@.len(),
            sigma_m.wf(),
            sigma_v.wf(),
            sigma_m@ == sigma0,
            env == env_of(sigma_v),
            roots == bottom_metas_in_ungen.order(),
            metas_in_ungen_not_in_sigma_v.wf(),
            loose_from(Seq::empty(), roots, 0, sigma0, env, fuel as nat) == loose_from(
                metas_in_ungen_not_in_sigma_v.order(),
                roots,
                i as nat,
                sigma0,
                env,
                fuel as nat,
            ),
        decreases bottom_metas_in_ungen.names@.len() - i,
    {
        assert(roots[i as int] == bottom_metas_in_ungen.names@[i as int]@);
        let meta_name = &bottom_metas_in_ungen.names[i];
        match meta_is_in_sigma_v(meta_name.as_str(), sigma_m, sigma_v, fuel) {
            None => {
                return None;
            },
            Some(true) => {},
            Some(false) => {
                metas_in_ungen_not_in_sigma_v.insert(meta_name.clone());
            },
        }
        i += 1;
    }
    let ghost loose = metas_in_ungen_not_in_sigma_v.order();
    let ghost g0 = gen_fresh_tyvar@;
    let mut new_tyvars_for_gen: Vec<Type> = Vec::new();
    let mut k: usize = 0;
    proof {
        assert(tys_of(new_tyvars_for_gen@) =~= Seq::<Ty>::empty());
    }
    while k < metas_in_ungen_not_in_sigma_v.names.len()
        invariant
            k <= metas_in_ungen_not_in_sigma_v.names@.len(),
            sigma_m.wf(),
            loose == metas_in_ungen_not_in_sigma_v.order(),
            bind_each(loose, 0, Seq::empty(), sigma0, g0) == bind_each(
                loose,
                k as nat,
                tys_of(new_tyvars_for_gen@),
                sigma_m@,
                gen_fresh_tyvar@,
            ),
        decreases metas_in_ungen_not_in_sigma_v.names@.len() - k,
    {
        assert(loose[k as int] == metas_in_ungen_not_in_sigma_v.names@[k as int]@);
        if gen_fresh_tyvar.count == i32::MAX {
            return None;
        }
        let ghost before = tys_of(new_tyvars_for_gen@);
        let new_tyvar = gen_fresh_tyvar.fresh();
        new_tyvars_for_gen.push(clone_type(&new_tyvar));
        sigma_m.insert(metas_in_ungen_not_in_sigma_v.names[k].clone(), new_tyvar);
        proof {
            assert(tys_of(new_tyvars_for_gen@) =~= before.push(new_tyvar@));
        }
        k += 1;
    }
    Some(
        Type::Poly {
            tyvars: new_tyvars_for_gen,
            poly_type: Box::new(clone_type(ungeneralizeded_type)),
        },
    )
}

/// The type made polymorphic in the metavariables that it ends in and that
/// are not in scope: each of these is bound in `sigma_m` to a fresh type
/// variable, and the fresh variables are the parameters of the result.
///
/// `None`, with nothing changed, where the generator is used up, where
/// `meta_is_in_sigma_v` has no answer, and where a chain of metavariables is
/// longer than `fuel`.
pub fn generalize(
    sigma_m: &mut NameMap<Type>,
    sigma_v: &NameMap<Type>,
    ungeneralizeded_type: &Type,
    gen_fresh_tyvar: &mut FreshTyvarGenerator,
    fuel: usize,
) -> (r: Option<Type>)
    requires
        old(sigma_m).wf(),
        sigma_v.wf(),
    ensures
        final(sigma_m).wf(),
        match generalized(
            old(sigma_m)@,
            env_of(sigma_v),
            ungeneralizeded_type@,
            old(gen_fresh_tyvar)@,
            fuel as nat,
        ) {
            Some((t, s, g)) => r matches Some(x) && x@ == t && final(sigma_m)@ == s
                && final(gen_fresh_tyvar)@ == g,
            None => r is None && final(sigma_m)@ == old(sigma_m)@ && final(gen_fresh_tyvar)@
                == old(gen_fresh_tyvar)@,
        },
{
    let mut s = clone_type_map(sigma_m);
    let mut g = clone_tyvar_gen(gen_fresh_tyvar);
    match generalize_in(&mut s, sigma_v, ungeneralizeded_type, &mut g, fuel) {
        Some(t) => {
            *sigma_m = s;
            *gen_fresh_tyvar = g;
            Some(t)
        },
        None => None,
    }
}

/// `instantiate`, with the generators left in no particular state where
/// there is no result.
#[verifier::loop_isolation(false)]
fn instantiate_in(
    sigma_m: &NameMap<Type>,
    gen_fresh_tyvar: &mut FreshTyvarGenerator,
    gen_fresh_meta: &mut FreshMetaGenerator,
    poly: &Type,
    fuel: usize,
) -> (r: Option<Type>)
    requires
        sigma_m.wf(),
    ensures
        match instantiated(
            store_of(sigma_m, old(gen_fresh_meta), old(gen_fresh_tyvar)),
            poly@,
            fuel as nat,
        ) {
            Some((t, s)) => r matches Some(x) && x@ == t && s == store_of(
                sigma_m,
                final(gen_fresh_meta),
                final(gen_fresh_tyvar),
            ),
            None => r is None,
        },
{
    match poly {
        Type::Poly { tyvars, poly_type } => {
            let ghost pars = tys_of(tyvars@);
            let ghost g0 = gen_fresh_meta@;
            let mut tyvar_to_concrete_meta: NameMap<Type> = NameMap::new();
            let mut i: usize = 0;
            while i < tyvars.len()
                invariant
                    i <= tyvars.len(),
                    pars == tys_of(tyvars@),
                    tyvar_to_concrete_meta.wf(),
                    meta_for_each(pars, 0, Map::empty(), g0) == meta_for_each(
                        pars,
                        i as nat,
                        tyvar_to_concrete_meta@,
                        gen_fresh_meta@,
                    ),
                decreases tyvars.len() - i,
            {
                assert(pars[i as int] == tyvars@[i as int]@);
                let a_i_name = match &tyvars[i] {
                    Type::Tyvar { name } => name.clone(),
                    _ => {
                        return None;
                    },
                };
                if gen_fresh_meta.count == i32::MAX {
                    return None;
                }
                tyvar_to_concrete_meta.insert(a_i_name, gen_fresh_meta.fresh());
                i += 1;
            }
            subst_in(gen_fresh_tyvar, poly_type, &tyvar_to_concrete_meta, sigma_m, fuel)
        },
        _ => Some(clone_type(poly)),
    }
}

/// A polymorphic type with a fresh metavariable in place of each of its
/// parameters; any other type as it is.
///
/// `None`, with the generators as they were, where a parameter is no type
/// variable, where a generator is used up, and where the substitution needs
/// more than `fuel`.
pub fn instantiate(
    sigma_m: &NameMap<Type>,
    gen_fresh_tyvar: &mut FreshTyvarGenerator,
    gen_fresh_meta: &mut FreshMetaGenerator,
    poly: &Type,
    fuel: usize,
) -> (r: Option<Type>)
    requires
        sigma_m.wf(),
    ensures
        match instantiated(
            store_of(sigma_m, old(gen_fresh_meta), old(gen_fresh_tyvar)),
            poly@,
            fuel as nat,
        ) {
            Some((t, s)) => r matches Some(x) && x@ == t && s == store_of(
                sigma_m,
                final(gen_fresh_meta),
                final(gen_fresh_tyvar),
            ),
            None => r is None && final(gen_fresh_meta)@ == old(gen_fresh_meta)@
                && final(gen_fresh_tyvar)@ == old(gen_fresh_tyvar)@,
        },
{
    let mut gt = clone_tyvar_gen(gen_fresh_tyvar);
    let mut gm = clone_meta_gen(gen_fresh_meta);
    match instantiate_in(sigma_m, &mut gt, &mut gm, poly, fuel) {
        Some(t) => {
            *gen_fresh_tyvar = gt;
            *gen_fresh_meta = gm;
            Some(t)
        },
        None => None,
    }
}

/// The message for two polymorphic types with different numbers of
/// parameters, made by `format!` with the red of `inline_colorization`: the
/// escape sequence for red, then the text.
#[verifier::external_body]
fn poly_lengths_message() -> (r: String)
    ensures
        r@ == poly_lengths_text(),
{
    format!("{color_red}unification error, poly tyvars lengths differ")
}

/// The message for two types that cannot be unified, made by `format!`
/// with the colours of `inline_colorization`: it names the two types as
/// `Debug` prints them, between the escape sequences for red and for the
/// colour before. It is a function of the two types.
#[verifier::external_body]
fn incompatible_message(ty1: &Type, ty2: &Type) -> (r: String)
    ensures
        r@ == incompatible_text(ty1@, ty2@),
{
    format!("{color_red}unification error, {:?} and {:?} incompatible{color_reset}", ty1, ty2)
}

/// A verdict as contracts see it.
pub open spec fn verdict(r: Result<(), String>) -> Result<(), Seq<char>> {
    match r {
        Ok(_) => Ok(()),
        Err(e) => Err(e@),
    }
}

/// `unify`, with the map and the generators left in no particular state
/// where there is no result.
fn unify_in(
    sigma_m: &mut NameMap<Type>,
    gen_fresh_meta: &mut FreshMetaGenerator,
    gen_fresh_tyvar: &mut FreshTyvarGenerator,
    ty1: &Type,
    ty2: &Type,
    fuel: usize,
) -> (r: Option<Result<(), String>>)
    requires
        old(sigma_m).wf(),
    ensures
        final(sigma_m).wf(),
        match unified(
            store_of(old(sigma_m), old(gen_fresh_meta), old(gen_fresh_tyvar)),
            ty1@,
            ty2@,
            fuel as nat,
        ) {
            Some((res, s)) => r matches Some(x) && verdict(x) == res && s == store_of(
                final(sigma_m),
                final(gen_fresh_meta),
                final(gen_fresh_tyvar),
            ),
            None => r is None,
        },
    decreases fuel, ty1, 0nat,
{
    match ty1 {
        Type::Fun { par_types: par_tys1, ret_type: ret_ty1 } => {
            if let Type::Fun { par_types: par_tys2, ret_type: ret_ty2 } = ty2 {
                match unify_lists(
                    sigma_m,
                    gen_fresh_meta,
                    gen_fresh_tyvar,
                    par_tys1,
                    par_tys2,
                    fuel,
                ) {
                    None => {
                        return None;
                    },
                    Some(Err(e)) => {
                        return Some(Err(e));
                    },
                    Some(Ok(_)) => {},
                }
                return unify_in(sigma_m, gen_fresh_meta, gen_fresh_tyvar, ret_ty1, ret_ty2, fuel);
            }
        },
        Type::Poly { tyvars: alphas1, poly_type: u1 } => {
            if let Type::Poly { tyvars: alphas2, poly_type: u2 } = ty2 {
                proof {
                    assert(tys_of(alphas1@).len() == alphas1@.len());
                    assert(tys_of(alphas2@).len() == alphas2@.len());
                    assert(ty1@ == Ty::Poly {
                        tyvars: tys_of(alphas1@),
                        poly_type: Box::new(u1@),
                    });
                    assert(ty2@ == Ty::Poly {
                        tyvars: tys_of(alphas2@),
                        poly_type: Box::new(u2@),
                    });
                }
                if alphas1.len() != alphas2.len() {
                    return Some(Err(poly_lengths_message()));
                }
                let tyvars2_to_tyvars1 = match pair_tyvars(alphas1, alphas2) {
                    Some(m) => m,
                    None => {
                        return Some(Err("non tyvar within polytype args".to_owned()));
                    },
                };
                let substed_u2 = match subst_in(
                    gen_fresh_tyvar,
                    u2,
                    &tyvars2_to_tyvars1,
                    sigma_m,
                    fuel,
                ) {
                    Some(t) => t,
                    None => {
                        return None;
                    },
                };
                return unify_in(sigma_m, gen_fresh_meta, gen_fresh_tyvar, u1, &substed_u2, fuel);
            }
        },
        Type::Tyvar { name: name1 } => {
            if let Type::Tyvar { name: name2 } = ty2 {
                if *name1 == *name2 {
                    return Some(Ok(()));
                } else {
                    return Some(Err("unifying two different tyvars".to_owned()));
                }
            }
        },
        Type::Meta { name: alpha } => {
            match sigma_m.get(alpha) {
                Some(bound) => {
                    if fuel == 0 {
                        return None;
                    }
                    let sigma_m_alpha = clone_type(bound);
                    return unify_in(
                        sigma_m,
                        gen_fresh_meta,
                        gen_fresh_tyvar,
                        &sigma_m_alpha,
                        ty2,
                        fuel - 1,
                    );
                },
                None => {},
            }
            if let Type::Meta { name: gamma } = ty2 {
                match sigma_m.get(gamma) {
                    Some(bound) => {
                        if fuel == 0 {
                            return None;
                        }
                        let sigma_m_gamma = clone_type(bound);
                        return unify_in(
                            sigma_m,
                            gen_fresh_meta,
                            gen_fresh_tyvar,
                            ty1,
                            &sigma_m_gamma,
                            fuel - 1,
                        );
                    },
                    None => {},
                }
                if *gamma == *alpha {
                    return Some(Ok(()));
                }
                sigma_m.insert(alpha.clone(), clone_type(ty2));
                return Some(Ok(()));
            }
            if all_metas_in_type(ty2).contains(alpha) {
                return Some(Err("ty1==Meta(alpha) in t, while t!=Meta(alpha)".to_owned()));
            }
            sigma_m.insert(alpha.clone(), clone_type(ty2));
            return Some(Ok(()));
        },
        Type::Int => {
            if let Type::Int = ty2 {
                return Some(Ok(()));
            }
        },
        Type::Bool => {
            if let Type::Bool = ty2 {
                return Some(Ok(()));
            }
        },
        Type::Unit => {
            if let Type::Unit = ty2 {
                return Some(Ok(()));
            }
        },
        Type::Action => {
            if let Type::Action = ty2 {
                return Some(Ok(()));
            }
        },
    }
    if let Type::Meta { .. } = ty2 {
        if fuel == 0 {
            return None;
        }
        return unify_in(sigma_m, gen_fresh_meta, gen_fresh_tyvar, ty2, ty1, fuel - 1);
    }
    Some(Err(incompatible_message(ty1, ty2)))
}

/// The map from each parameter of one polymorphic type to the parameter of
/// another at the same place; `None` where a parameter of the first is no
/// type variable.
fn pair_tyvars(alphas1: &Vec<Type>, alphas2: &Vec<Type>) -> (r: Option<NameMap<Type>>)
    ensures
        match pair_up(tys_of(alphas1@), tys_of(alphas2@), 0, Map::empty()) {
            Some(m) => r matches Some(x) && x.wf() && x@ == m,
            None => r is None,
        },
{
    let ghost a1 = tys_of(alphas1@);
    let ghost a2 = tys_of(alphas2@);
    let mut out: NameMap<Type> = NameMap::new();
    let mut i: usize = 0;
    while i < alphas1.len() && i < alphas2.len()
        invariant
            a1 == tys_of(alphas1@),
            a2 == tys_of(alphas2@),
            out.wf(),
            pair_up(a1, a2, 0, Map::empty()) == pair_up(a1, a2, i as nat, out@),
        decreases alphas1.len() - i,
    {
        assert(a1[i as int] == alphas1@[i as int]@);
        assert(a2[i as int] == alphas2@[i as int]@);
        let name = match &alphas1[i] {
            Type::Tyvar { name } => name.clone(),
            _ => {
                return None;
            },
        };
        out.insert(name, clone_type(&alphas2[i]));
        i += 1;
    }
    Some(out)
}

/// Unifies the types of two lists pair by pair, as far as both have one,
/// up to the first pair that fails.
#[verifier::loop_isolation(false)]
fn unify_lists(
    sigma_m: &mut NameMap<Type>,
    gen_fresh_meta: &mut FreshMetaGenerator,
    gen_fresh_tyvar: &mut FreshTyvarGenerator,
    tys1: &Vec<Type>,
    tys2: &Vec<Type>,
    fuel: usize,
) -> (r: Option<Result<(), String>>)
    requires
        old(sigma_m).wf(),
    ensures
        final(sigma_m).wf(),
        match unified_all(
            store_of(old(sigma_m), old(gen_fresh_meta), old(gen_fresh_tyvar)),
            tys_of(tys1@),
            tys_of(tys2@),
            0,
            fuel as nat,
        ) {
            Some((res, s)) => r matches Some(x) && verdict(x) == res && s == store_of(
                final(sigma_m),
                final(gen_fresh_meta),
                final(gen_fresh_tyvar),
            ),
            None => r is None,
        },
    decreases fuel, tys1, tys1@.len() + 1,
{
    let ghost lhs = tys_of(tys1@);
    let ghost rhs = tys_of(tys2@);
    let ghost s0 = store_of(sigma_m, gen_fresh_meta, gen_fresh_tyvar);
    let mut i: usize = 0;
    while i < tys1.len() && i < tys2.len()
        invariant
            lhs == tys_of(tys1@),
            rhs == tys_of(tys2@),
            sigma_m.wf(),
            unified_all(s0, lhs, rhs, 0, fuel as nat) == unified_all(
                store_of(sigma_m, gen_fresh_meta, gen_fresh_tyvar),
                lhs,
                rhs,
                i as nat,
                fuel as nat,
            ),
        decreases tys1.len() - i,
    {
        assert(lhs[i as int] == tys1@[i as int]@);
        assert(rhs[i as int] == tys2@[i as int]@);
        match unify_in(sigma_m, gen_fresh_meta, gen_fresh_tyvar, &tys1[i], &tys2[i], fuel) {
            None => {
                return None;
            },
            Some(Err(e)) => {
                return Some(Err(e));
            },
            Some(Ok(_)) => {},
        }
        i += 1;
    }
    Some(Ok(()))
}

/// Unifies two types: binds metavariables in `sigma_m` so that the two
/// become equal, or says why they cannot.
///
/// `None`, with nothing changed, where a substitution has no result and
/// where the unification needs more than `fuel` steps from a metavariable
/// to what it is bound to.
pub fn unify(
    sigma_m: &mut NameMap<Type>,
    gen_fresh_meta: &mut FreshMetaGenerator,
    gen_fresh_tyvar: &mut FreshTyvarGenerator,
    ty1: &Type,
    ty2: &Type,
    fuel: usize,
) -> (r: Option<Result<(), String>>)
    requires
        old(sigma_m).wf(),
    ensures
        final(sigma_m).wf(),
        match unified(
            store_of(old(sigma_m), old(gen_fresh_meta), old(gen_fresh_tyvar)),
            ty1@,
            ty2@,
            fuel as nat,
        ) {
            Some((res, s)) => r matches Some(x) && verdict(x) == res && s == store_of(
                final(sigma_m),
                final(gen_fresh_meta),
                final(gen_fresh_tyvar),
            ),
            None => r is None && store_of(
                final(sigma_m),
                final(gen_fresh_meta),
                final(gen_fresh_tyvar),
            ) == store_of(old(sigma_m), old(gen_fresh_meta), old(gen_fresh_tyvar)),
        },
{
    let mut s = clone_type_map(sigma_m);
    let mut gm = clone_meta_gen(gen_fresh_meta);
    let mut gt = clone_tyvar_gen(gen_fresh_tyvar);
    match unify_in(&mut s, &mut gm, &mut gt, ty1, ty2, fuel) {
        Some(x) => {
            *sigma_m = s;
            *gen_fresh_meta = gm;
            *gen_fresh_tyvar = gt;
            Some(x)
        },
        None => None,
    }
}

/// Whether the identifier `id` is used in `expr`: as the expression
/// itself, as the function or an argument of an application, or in an
/// operand of an operator or a branch of a conditional. An action block and
/// a lambda use none. Operands are looked at from the left, up to the first
/// that uses it; `None` where a member access is looked at.
pub fn id_is_used_in_expr(id: &str, expr: &Expr) -> (r: Option<bool>)
    ensures
        r == id_used(id@, expr@),
{
    id_is_used(&id.to_owned(), expr)
}

/// `id_is_used_in_expr` for a name held as a string.
#[verifier::loop_isolation(false)]
fn id_is_used(id: &String, expr: &Expr) -> (r: Option<bool>)
    ensures
        r == id_used(id@, expr@),
    decreases expr,
{
    match expr {
        Expr::IdExpr { ident } => Some(*ident == *id),
        Expr::IntConst { .. } => Some(false),
        Expr::BoolConst { .. } => Some(false),
        Expr::Action { .. } => Some(false),
        Expr::Member { .. } => None,
        Expr::Apply { fun, args } => {
            let ghost ts = terms_of(args@);
            proof {
                assert(expr@ == Term::Apply { fun: Box::new(fun@), args: ts });
            }
            let mut rslt = match &**fun {
                Expr::IdExpr { ident } => {
                    assert(fun@ == Term::Id { ident: ident@ });
                    *ident == *id
                },
                _ => {
                    assert(!(fun@ is Id));
                    let none = String::new();
                    none == *id
                },
            };
            let ghost first = rslt;
            let mut i: usize = 0;
            while i < args.len()
                invariant
                    i <= args.len(),
                    ts == terms_of(args@),
                    rslt == (first || exists|j: int|
                        0 <= j < i && #[trigger] ts[j] == (Term::Id { ident: id@ })),
                decreases args.len() - i,
            {
                assert(ts[i as int] == args@[i as int]@);
                match &args[i] {
                    Expr::IdExpr { ident: arg_name } => {
                        if *id == *arg_name {
                            rslt = true;
                        }
                    },
                    _ => {},
                }
                proof {
                    if exists|j: int|
                        0 <= j < i + 1 && #[trigger] ts[j] == (Term::Id { ident: id@ }) {
                        let j = choose|j: int|
                            0 <= j < i + 1 && #[trigger] ts[j] == (Term::Id { ident: id@ });
                        if j < i {
                            assert(0 <= j < i && ts[j] == (Term::Id { ident: id@ }));
                        }
                    }
                }
                i += 1;
            }
            proof {
                let t = expr@;
                let want = Term::Id { ident: id@ };
                assert(t->args == ts);
                if exists|j: int| 0 <= j < ts.len() && #[trigger] ts[j] == want {
                    let j = choose|j: int| 0 <= j < ts.len() && #[trigger] ts[j] == want;
                    assert(0 <= j < t->args.len() && t->args[j] == want);
                }
                if exists|j: int| 0 <= j < t->args.len() && #[trigger] t->args[j] == want {
                    let j = choose|j: int| 0 <= j < t->args.len() && #[trigger] t->args[j] == want;
                    assert(0 <= j < ts.len() && ts[j] == want);
                }
                assert(id_used(id@, t) == Some(rslt));
            }
            Some(rslt)
        },
        Expr::BopExpr { opd1, opd2, .. } => match id_is_used(id, opd1) {
            Some(false) => id_is_used(id, opd2),
            other => other,
        },
        Expr::UopExpr { opd, .. } => id_is_used(id, opd),
        Expr::IfExpr { cond, then, elze } => match id_is_used(id, cond) {
            Some(false) => match id_is_used(id, then) {
                Some(false) => id_is_used(id, elze),
                other => other,
            },
            other => other,
        },
        Expr::Lambda { .. } => Some(false),
    }
}

/// The outcome of a check as contracts see it.
pub open spec fn typed(r: Result<Type, String>) -> Result<Ty, Seq<char>> {
    match r {
        Ok(t) => Ok(t@),
        Err(e) => Err(e@),
    }
}

/// The outcome of the check of a list as contracts see it.
pub open spec fn typed_all(r: Result<Vec<Type>, String>) -> Result<Seq<Ty>, Seq<char>> {
    match r {
        Ok(ts) => Ok(tys_of(ts@)),
        Err(e) => Err(e@),
    }
}

/// Unifies `t` with `want` and, where that succeeds, gives `result`.
fn unify_to(
    sigma_m: &mut NameMap<Type>,
    gen_fresh_meta: &mut FreshMetaGenerator,
    gen_fresh_tyvar: &mut FreshTyvarGenerator,
    t: &Type,
    want: &Type,
    result: Type,
    fuel: usize,
) -> (r: Option<Result<Type, String>>)
    requires
        old(sigma_m).wf(),
    ensures
        final(sigma_m).wf(),
        match unify_then(
            store_of(old(sigma_m), old(gen_fresh_meta), old(gen_fresh_tyvar)),
            t@,
            want@,
            result@,
            fuel as nat,
        ) {
            Some((res, s)) => r matches Some(x) && typed(x) == res && s == store_of(
                final(sigma_m),
                final(gen_fresh_meta),
                final(gen_fresh_tyvar),
            ),
            None => r is None,
        },
{
    match unify_in(sigma_m, gen_fresh_meta, gen_fresh_tyvar, t, want, fuel) {
        None => None,
        Some(Err(e)) => Some(Err(e)),
        Some(Ok(_)) => Some(Ok(result)),
    }
}

/// The type that the operands of a binary operator must have.
fn operand_type(bop: Binop) -> (r: Type)
    ensures
        r@ == operand_ty(bop),
{
    match bop {
        Binop::And => Type::Bool,
        Binop::Or => Type::Bool,
        _ => Type::Int,
    }
}

/// The type of what a binary operator gives.
fn result_type(bop: Binop) -> (r: Type)
    ensures
        r@ == result_ty(bop),
{
    match bop {
        Binop::Add => Type::Int,
        Binop::Sub => Type::Int,
        Binop::Mul => Type::Int,
        Binop::Div => Type::Int,
        _ => Type::Bool,
    }
}

/// The type of the operand and of the result of a unary operator.
fn uop_type(uop: Uop) -> (r: Type)
    ensures
        r@ == uop_ty(uop),
{
    match uop {
        Uop::Neg => Type::Int,
        Uop::Not => Type::Bool,
    }
}

/// A fresh metavariable for each parameter of a lambda: the metavariables,
/// and the variables in scope with the parameters added.
#[verifier::loop_isolation(false)]
fn bind_lambda_pars(
    sigma_v: &NameMap<Type>,
    gen_fresh_meta: &mut FreshMetaGenerator,
    pars: &Vec<Expr>,
) -> (r: Option<(Vec<Type>, NameMap<Type>)>)
    requires
        sigma_v.wf(),
    ensures
        match lambda_pars(terms_of(pars@), 0, Seq::empty(), sigma_v@, old(gen_fresh_meta)@) {
            Some((metas, env, g)) => r matches Some((v, m)) && tys_of(v@) == metas && m.wf() && m@
                == env && final(gen_fresh_meta)@ == g,
            None => r is None,
        },
{
    let ghost ps = terms_of(pars@);
    let ghost g0 = gen_fresh_meta@;
    let mut new_metas_for_pars: Vec<Type> = Vec::new();
    let mut local_sigma_v = clone_type_map(sigma_v);
    let mut i: usize = 0;
    proof {
        assert(tys_of(new_metas_for_pars@) =~= Seq::<Ty>::empty());
    }
    while i < pars.len()
        invariant
            i <= pars.len(),
            local_sigma_v.wf(),
            lambda_pars(ps, 0, Seq::empty(), sigma_v@, g0) == lambda_pars(
                ps,
                i as nat,
                tys_of(new_metas_for_pars@),
                local_sigma_v@,
                gen_fresh_meta@,
            ),
        decreases pars.len() - i,
    {
        assert(ps[i as int] == pars@[i as int]@);
        let x_name = match &pars[i] {
            Expr::IdExpr { ident } => ident.clone(),
            _ => {
                return None;
            },
        };
        if gen_fresh_meta.count == i32::MAX {
            return None;
        }
        let ghost before = tys_of(new_metas_for_pars@);
        let fresh_meta = gen_fresh_meta.fresh();
        new_metas_for_pars.push(clone_type(&fresh_meta));
        local_sigma_v.insert(x_name, fresh_meta);
        proof {
            assert(tys_of(new_metas_for_pars@) =~= before.push(fresh_meta@));
        }
        i += 1;
    }
    Some((new_metas_for_pars, local_sigma_v))
}

/// `check_expr`, with the map and the generators left in no particular
/// state where there is no result.
fn check_expr_in(
    sigma_v: &NameMap<Type>,
    sigma_m: &mut NameMap<Type>,
    gen_fresh_meta: &mut FreshMetaGenerator,
    gen_fresh_tyvar: &mut FreshTyvarGenerator,
    expr: &Expr,
    fuel: usize,
) -> (r: Option<Result<Type, String>>)
    requires
        sigma_v.wf(),
        old(sigma_m).wf(),
    ensures
        final(sigma_m).wf(),
        match checked(
            sigma_v@,
            store_of(old(sigma_m), old(gen_fresh_meta), old(gen_fresh_tyvar)),
            expr@,
            fuel as nat,
        ) {
            Some((res, s)) => r matches Some(x) && typed(x) == res && s == store_of(
                final(sigma_m),
                final(gen_fresh_meta),
                final(gen_fresh_tyvar),
            ),
            None => r is None,
        },
    decreases expr, 0nat,
{
    match expr {
        Expr::IdExpr { ident } => {
            let ident_val_in_sigma_v = match sigma_v.get(ident) {
                Some(t) => t,
                None => {
                    return None;
                },
            };
            match instantiate_in(
                sigma_m,
                gen_fresh_tyvar,
                gen_fresh_meta,
                ident_val_in_sigma_v,
                fuel,
            ) {
                Some(t) => Some(Ok(t)),
                None => None,
            }
        },
        Expr::IntConst { .. } => Some(Ok(Type::Int)),
        Expr::BoolConst { .. } => Some(Ok(Type::Bool)),
        Expr::Action { stmt } => match stmt {
            Stmt::Stmt { sgl_stmts } => {
                proof {
                    assert(stmt@ =~= steps_view(sgl_stmts@));
                }
                match check_steps_in(
                    sigma_v,
                    sigma_m,
                    gen_fresh_meta,
                    gen_fresh_tyvar,
                    sgl_stmts,
                    fuel,
                ) {
                    None => None,
                    Some(Err(e)) => Some(Err(e)),
                    Some(Ok(_)) => Some(Ok(Type::Action)),
                }
            },
        },
        Expr::Member { .. } => None,
        Expr::Apply { fun, args } => {
            proof {
                assert(expr@ == Term::Apply { fun: Box::new(fun@), args: terms_of(args@) });
            }
            let fun_type = match check_expr_in(
                sigma_v,
                sigma_m,
                gen_fresh_meta,
                gen_fresh_tyvar,
                fun,
                fuel,
            ) {
                None => {
                    return None;
                },
                Some(Err(e)) => {
                    return Some(Err(e));
                },
                Some(Ok(t)) => t,
            };
            let arg_types = match check_all_in(
                sigma_v,
                sigma_m,
                gen_fresh_meta,
                gen_fresh_tyvar,
                args,
                fuel,
            ) {
                None => {
                    return None;
                },
                Some(Err(e)) => {
                    return Some(Err(e));
                },
                Some(Ok(ts)) => ts,
            };
            if gen_fresh_meta.count == i32::MAX {
                return None;
            }
            let ret_type = gen_fresh_meta.fresh();
            let want = Type::Fun {
                par_types: arg_types,
                ret_type: Box::new(clone_type(&ret_type)),
            };
            unify_to(sigma_m, gen_fresh_meta, gen_fresh_tyvar, &fun_type, &want, ret_type, fuel)
        },
        Expr::BopExpr { opd1, opd2, bop } => {
            let opd1_type = match check_expr_in(
                sigma_v,
                sigma_m,
                gen_fresh_meta,
                gen_fresh_tyvar,
                opd1,
                fuel,
            ) {
                None => {
                    return None;
                },
                Some(Err(e)) => {
                    return Some(Err(e));
                },
                Some(Ok(t)) => t,
            };
            let opd2_type = match check_expr_in(
                sigma_v,
                sigma_m,
                gen_fresh_meta,
                gen_fresh_tyvar,
                opd2,
                fuel,
            ) {
                None => {
                    return None;
                },
                Some(Err(e)) => {
                    return Some(Err(e));
                },
                Some(Ok(t)) => t,
            };
            let want = operand_type(*bop);
            match unify_in(sigma_m, gen_fresh_meta, gen_fresh_tyvar, &opd1_type, &want, fuel) {
                None => {
                    return None;
                },
                Some(Err(e)) => {
                    return Some(Err(e));
                },
                Some(Ok(_)) => {},
            }
            unify_to(
                sigma_m,
                gen_fresh_meta,
                gen_fresh_tyvar,
                &opd2_type,
                &want,
                result_type(*bop),
                fuel,
            )
        },
        Expr::UopExpr { opd, uop } => {
            let opd_type = match check_expr_in(
                sigma_v,
                sigma_m,
                gen_fresh_meta,
                gen_fresh_tyvar,
                opd,
                fuel,
            ) {
                None => {
                    return None;
                },
                Some(Err(e)) => {
                    return Some(Err(e));
                },
                Some(Ok(t)) => t,
            };
            let want = uop_type(*uop);
            unify_to(
                sigma_m,
                gen_fresh_meta,
                gen_fresh_tyvar,
                &opd_type,
                &want,
                uop_type(*uop),
                fuel,
            )
        },
        Expr::IfExpr { cond, then, elze } => {
            let cond_type = match check_expr_in(
                sigma_v,
                sigma_m,
                gen_fresh_meta,
                gen_fresh_tyvar,
                cond,
                fuel,
            ) {
                None => {
                    return None;
                },
                Some(Err(e)) => {
                    return Some(Err(e));
                },
                Some(Ok(t)) => t,
            };
            let then_type = match check_expr_in(
                sigma_v,
                sigma_m,
                gen_fresh_meta,
                gen_fresh_tyvar,
                then,
                fuel,
            ) {
                None => {
                    return None;
                },
                Some(Err(e)) => {
                    return Some(Err(e));
                },
                Some(Ok(t)) => t,
            };
            let elze_type = match check_expr_in(
                sigma_v,
                sigma_m,
                gen_fresh_meta,
                gen_fresh_tyvar,
                elze,
                fuel,
            ) {
                None => {
                    return None;
                },
                Some(Err(e)) => {
                    return Some(Err(e));
                },
                Some(Ok(t)) => t,
            };
            let want = Type::Bool;
            match unify_in(sigma_m, gen_fresh_meta, gen_fresh_tyvar, &cond_type, &want, fuel) {
                None => {
                    return None;
                },
                Some(Err(e)) => {
                    return Some(Err(e));
                },
                Some(Ok(_)) => {},
            }
            let result = clone_type(&then_type);
            unify_to(
                sigma_m,
                gen_fresh_meta,
                gen_fresh_tyvar,
                &then_type,
                &elze_type,
                result,
                fuel,
            )
        },
        Expr::Lambda { pars, body } => {
            proof {
                assert(expr@ == Term::Lambda { pars: terms_of(pars@), body: Box::new(body@) });
            }
            let (new_metas_for_pars, local_sigma_v) = match bind_lambda_pars(
                sigma_v,
                gen_fresh_meta,
                pars,
            ) {
                Some(x) => x,
                None => {
                    return None;
                },
            };
            if gen_fresh_meta.count == i32::MAX {
                return None;
            }
            let t2 = gen_fresh_meta.fresh();
            let t3 = match check_expr_in(
                &local_sigma_v,
                sigma_m,
                gen_fresh_meta,
                gen_fresh_tyvar,
                body,
                fuel,
            ) {
                None => {
                    return None;
                },
                Some(Err(e)) => {
                    return Some(Err(e));
                },
                Some(Ok(t)) => t,
            };
            let result = Type::Fun {
                par_types: new_metas_for_pars,
                ret_type: Box::new(clone_type(&t2)),
            };
            unify_to(sigma_m, gen_fresh_meta, gen_fresh_tyvar, &t2, &t3, result, fuel)
        },
    }
}

/// The types of the expressions of a list, in order, up to the first that
/// fails.
#[verifier::loop_isolation(false)]
fn check_all_in(
    sigma_v: &NameMap<Type>,
    sigma_m: &mut NameMap<Type>,
    gen_fresh_meta: &mut FreshMetaGenerator,
    gen_fresh_tyvar: &mut FreshTyvarGenerator,
    es: &Vec<Expr>,
    fuel: usize,
) -> (r: Option<Result<Vec<Type>, String>>)
    requires
        sigma_v.wf(),
        old(sigma_m).wf(),
    ensures
        final(sigma_m).wf(),
        match checked_all(
            sigma_v@,
            store_of(old(sigma_m), old(gen_fresh_meta), old(gen_fresh_tyvar)),
            terms_of(es@),
            0,
            Seq::empty(),
            fuel as nat,
        ) {
            Some((res, s)) => r matches Some(x) && typed_all(x) == res && s == store_of(
                final(sigma_m),
                final(gen_fresh_meta),
                final(gen_fresh_tyvar),
            ),
            None => r is None,
        },
    decreases es, es@.len() + 1,
{
    let ghost ts = terms_of(es@);
    let ghost s0 = store_of(sigma_m, gen_fresh_meta, gen_fresh_tyvar);
    let mut arg_types: Vec<Type> = Vec::new();
    let mut i: usize = 0;
    proof {
        assert(tys_of(arg_types@) =~= Seq::<Ty>::empty());
    }
    while i < es.len()
        invariant
            i <= es.len(),
            sigma_m.wf(),
            checked_all(sigma_v@, s0, ts, 0, Seq::empty(), fuel as nat) == checked_all(
                sigma_v@,
                store_of(sigma_m, gen_fresh_meta, gen_fresh_tyvar),
                ts,
                i as nat,
                tys_of(arg_types@),
                fuel as nat,
            ),
        decreases es.len() - i,
    {
        assert(ts[i as int] == es@[i as int]@);
        let ghost before = tys_of(arg_types@);
        match check_expr_in(sigma_v, sigma_m, gen_fresh_meta, gen_fresh_tyvar, &es[i], fuel) {
            None => {
                return None;
            },
            Some(Err(e)) => {
                return Some(Err(e));
            },
            Some(Ok(t)) => {
                arg_types.push(t);
                proof {
                    assert(tys_of(arg_types@) =~= before.push(t@));
                }
            },
        }
        i += 1;
    }
    Some(Ok(arg_types))
}

/// Checks the statements of an action block, in order, up to the first
/// that fails.
#[verifier::loop_isolation(false)]
fn check_steps_in(
    sigma_v: &NameMap<Type>,
    sigma_m: &mut NameMap<Type>,
    gen_fresh_meta: &mut FreshMetaGenerator,
    gen_fresh_tyvar: &mut FreshTyvarGenerator,
    ss: &Vec<SglStmt>,
    fuel: usize,
) -> (r: Option<Result<(), String>>)
    requires
        sigma_v.wf(),
        old(sigma_m).wf(),
    ensures
        final(sigma_m).wf(),
        match checked_steps(
            sigma_v@,
            store_of(old(sigma_m), old(gen_fresh_meta), old(gen_fresh_tyvar)),
            steps_view(ss@),
            0,
            fuel as nat,
        ) {
            Some((res, s)) => r matches Some(x) && verdict(x) == res && s == store_of(
                final(sigma_m),
                final(gen_fresh_meta),
                final(gen_fresh_tyvar),
            ),
            None => r is None,
        },
    decreases ss, ss@.len() + 1,
{
    let ghost steps = steps_view(ss@);
    let ghost s0 = store_of(sigma_m, gen_fresh_meta, gen_fresh_tyvar);
    let mut i: usize = 0;
    while i < ss.len()
        invariant
            i <= ss.len(),
            sigma_m.wf(),
            checked_steps(sigma_v@, s0, steps, 0, fuel as nat) == checked_steps(
                sigma_v@,
                store_of(sigma_m, gen_fresh_meta, gen_fresh_tyvar),
                steps,
                i as nat,
                fuel as nat,
            ),
        decreases ss.len() - i,
    {
        assert(steps[i as int] == ss@[i as int]@);
        match &ss[i] {
            SglStmt::Do { act } => {
                match check_expr_in(sigma_v, sigma_m, gen_fresh_meta, gen_fresh_tyvar, act, fuel) {
                    None => {
                        return None;
                    },
                    Some(Err(e)) => {
                        return Some(Err(e));
                    },
                    Some(Ok(_)) => {},
                }
            },
            SglStmt::Ass { dst, src } => {
                let dst_type = match check_expr_in(
                    sigma_v,
                    sigma_m,
                    gen_fresh_meta,
                    gen_fresh_tyvar,
                    dst,
                    fuel,
                ) {
                    None => {
                        return None;
                    },
                    Some(Err(e)) => {
                        return Some(Err(e));
                    },
                    Some(Ok(t)) => t,
                };
                let src_type = match check_expr_in(
                    sigma_v,
                    sigma_m,
                    gen_fresh_meta,
                    gen_fresh_tyvar,
                    src,
                    fuel,
                ) {
                    None => {
                        return None;
                    },
                    Some(Err(e)) => {
                        return Some(Err(e));
                    },
                    Some(Ok(t)) => t,
                };
                match unify_in(
                    sigma_m,
                    gen_fresh_meta,
                    gen_fresh_tyvar,
                    &dst_type,
                    &src_type,
                    fuel,
                ) {
                    None => {
                        return None;
                    },
                    Some(Err(e)) => {
                        return Some(Err(e));
                    },
                    Some(Ok(_)) => {},
                }
            },
        }
        i += 1;
    }
    Some(Ok(()))
}

/// The type of `expr`, given the types of the variables in scope, or the
/// message of the type error in it. Metavariables are bound in `sigma_m`
/// as the check unifies types.
///
/// `None`, with nothing changed, where the expression reads a variable
/// that is not in scope or holds a member access or a lambda parameter
/// that is no identifier, where a generator is used up, and where the
/// check needs more than `fuel`.
pub fn check_expr(
    sigma_v: &NameMap<Type>,
    sigma_m: &mut NameMap<Type>,
    gen_fresh_meta: &mut FreshMetaGenerator,
    gen_fresh_tyvar: &mut FreshTyvarGenerator,
    expr: &Expr,
    fuel: usize,
) -> (r: Option<Result<Type, String>>)
    requires
        sigma_v.wf(),
        old(sigma_m).wf(),
    ensures
        final(sigma_m).wf(),
        match checked(
            sigma_v@,
            store_of(old(sigma_m), old(gen_fresh_meta), old(gen_fresh_tyvar)),
            expr@,
            fuel as nat,
        ) {
            Some((res, s)) => r matches Some(x) && typed(x) == res && s == store_of(
                final(sigma_m),
                final(gen_fresh_meta),
                final(gen_fresh_tyvar),
            ),
            None => r is None && store_of(
                final(sigma_m),
                final(gen_fresh_meta),
                final(gen_fresh_tyvar),
            ) == store_of(old(sigma_m), old(gen_fresh_meta), old(gen_fresh_tyvar)),
        },
{
    let mut s = clone_type_map(sigma_m);
    let mut gm = clone_meta_gen(gen_fresh_meta);
    let mut gt = clone_tyvar_gen(gen_fresh_tyvar);
    match check_expr_in(sigma_v, &mut s, &mut gm, &mut gt, expr, fuel) {
        Some(x) => {
            *sigma_m = s;
            *gen_fresh_meta = gm;
            *gen_fresh_tyvar = gt;
            Some(x)
        },
        None => None,
    }
}

/// Copies a map from names to flags.
pub fn clone_flag_map(m: &NameMap<bool>) -> (r: NameMap<bool>)
    requires
        m.wf(),
    ensures
        r.wf(),
        r@ == m@,
{
    let mut keys: Vec<String> = Vec::new();
    let mut vals: Vec<bool> = Vec::new();
    let mut i: usize = 0;
    while i < m.keys.len()
        invariant
            i <= m.keys@.len(),
            m.wf(),
            keys@.len() == i,
            vals@.len() == i,
            forall|j: int| 0 <= j < i ==> keys@[j]@ == m.keys@[j]@,
            forall|j: int| 0 <= j < i ==> vals@[j] == m.vals@[j],
        decreases m.keys@.len() - i,
    {
        keys.push(m.keys[i].clone());
        vals.push(m.vals[i]);
        i += 1;
    }
    let r = NameMap { keys, vals };
    assert(names_of(r.keys@) =~= names_of(m.keys@));
    assert(r@ =~= m@);
    r
}

/// What the five hold, as the outcome of a check.
pub open spec fn held(
    verdict: Result<(), Seq<char>>,
    sigma_v: &NameMap<Type>,
    sigma_m: &NameMap<Type>,
    pub_access: &NameMap<bool>,
    gen_fresh_meta: &FreshMetaGenerator,
    gen_fresh_tyvar: &FreshTyvarGenerator,
) -> Declared {
    Declared {
        verdict,
        sigma_v: env_of(sigma_v),
        pub_access: pub_access@,
        store: store_of(sigma_m, gen_fresh_meta, gen_fresh_tyvar),
    }
}

/// Checks the declaration of `name` with the value `val` and enters the
/// name into scope.
fn check_named(
    sigma_v: &mut NameMap<Type>,
    sigma_m: &mut NameMap<Type>,
    pub_access: &mut NameMap<bool>,
    gen_fresh_meta: &mut FreshMetaGenerator,
    gen_fresh_tyvar: &mut FreshTyvarGenerator,
    name: &String,
    val: &Expr,
    is_pub: Option<bool>,
    fuel: usize,
) -> (r: Option<Result<(), String>>)
    requires
        old(sigma_v).wf(),
        old(sigma_m).wf(),
        old(pub_access).wf(),
    ensures
        final(sigma_v).wf(),
        final(sigma_m).wf(),
        final(pub_access).wf(),
        match declared_name(
            env_of(old(sigma_v)),
            old(pub_access)@,
            store_of(old(sigma_m), old(gen_fresh_meta), old(gen_fresh_tyvar)),
            name@,
            val@,
            is_pub,
            fuel as nat,
        ) {
            Some(d) => r matches Some(x) && d == held(
                verdict(x),
                final(sigma_v),
                final(sigma_m),
                final(pub_access),
                final(gen_fresh_meta),
                final(gen_fresh_tyvar),
            ),
            None => r is None,
        },
{
    let checked = check_expr_in(sigma_v, sigma_m, gen_fresh_meta, gen_fresh_tyvar, val, fuel);
    let src_type = match checked {
        None => {
            return None;
        },
        Some(Err(err_msg)) => {
            return Some(Err(err_msg));
        },
        Some(Ok(ty)) => ty,
    };
    let t1 = match id_is_used(name, val) {
        None => {
            return None;
        },
        Some(true) => {
            let none: Vec<Type> = Vec::new();
            proof {
                assert(tys_of(none@) =~= Seq::<Ty>::empty());
            }
            Type::Poly { tyvars: none, poly_type: Box::new(src_type) }
        },
        Some(false) => match generalize_in(sigma_m, sigma_v, &src_type, gen_fresh_tyvar, fuel) {
            Some(t) => t,
            None => {
                return None;
            },
        },
    };
    match is_pub {
        Some(b) => {
            pub_access.insert(name.clone(), b);
        },
        None => {},
    }
    sigma_v.insert(name.clone(), t1);
    Some(Ok(()))
}

/// `check_decl`, with the maps and the generators left in no particular
/// state where there is no result.
fn check_decl_in(
    sigma_v: &mut NameMap<Type>,
    sigma_m: &mut NameMap<Type>,
    pub_access: &mut NameMap<bool>,
    gen_fresh_meta: &mut FreshMetaGenerator,
    gen_fresh_tyvar: &mut FreshTyvarGenerator,
    decl: &Decl,
    fuel: usize,
) -> (r: Option<Result<(), String>>)
    requires
        old(sigma_v).wf(),
        old(sigma_m).wf(),
        old(pub_access).wf(),
    ensures
        final(sigma_v).wf(),
        final(sigma_m).wf(),
        final(pub_access).wf(),
        match declared(
            env_of(old(sigma_v)),
            old(pub_access)@,
            store_of(old(sigma_m), old(gen_fresh_meta), old(gen_fresh_tyvar)),
            *decl,
            fuel as nat,
        ) {
            Some(d) => r matches Some(x) && d == held(
                verdict(x),
                final(sigma_v),
                final(sigma_m),
                final(pub_access),
                final(gen_fresh_meta),
                final(gen_fresh_tyvar),
            ),
            None => r is None,
        },
{
    match decl {
        Decl::Import { .. } => Some(Ok(())),
        Decl::VarDecl { name, val } => check_named(
            sigma_v,
            sigma_m,
            pub_access,
            gen_fresh_meta,
            gen_fresh_tyvar,
            name,
            val,
            None,
            fuel,
        ),
        Decl::DefDecl { name, val, is_pub } => check_named(
            sigma_v,
            sigma_m,
            pub_access,
            gen_fresh_meta,
            gen_fresh_tyvar,
            name,
            val,
            Some(*is_pub),
            fuel,
        ),
    }
}

/// Checks a declaration and enters its name into scope: with the type of
/// its value as it is where the value uses the name, and made polymorphic
/// where not. An import is accepted as it is. On a type error the scope is
/// left as it was and the message is returned.
///
/// `None`, with nothing changed, where the check of the value, the search
/// for the name in it or the generalisation has no result.
pub fn check_decl(
    sigma_v: &mut NameMap<Type>,
    sigma_m: &mut NameMap<Type>,
    pub_access: &mut NameMap<bool>,
    gen_fresh_meta: &mut FreshMetaGenerator,
    gen_fresh_tyvar: &mut FreshTyvarGenerator,
    decl: &Decl,
    fuel: usize,
) -> (r: Option<Result<(), String>>)
    requires
        old(sigma_v).wf(),
        old(sigma_m).wf(),
        old(pub_access).wf(),
    ensures
        final(sigma_v).wf(),
        final(sigma_m).wf(),
        final(pub_access).wf(),
        match declared(
            env_of(old(sigma_v)),
            old(pub_access)@,
            store_of(old(sigma_m), old(gen_fresh_meta), old(gen_fresh_tyvar)),
            *decl,
            fuel as nat,
        ) {
            Some(d) => r matches Some(x) && d == held(
                verdict(x),
                final(sigma_v),
                final(sigma_m),
                final(pub_access),
                final(gen_fresh_meta),
                final(gen_fresh_tyvar),
            ),
            None => r is None && held(
                Ok(()),
                final(sigma_v),
                final(sigma_m),
                final(pub_access),
                final(gen_fresh_meta),
                final(gen_fresh_tyvar),
            ) == held(
                Ok(()),
                old(sigma_v),
                old(sigma_m),
                old(pub_access),
                old(gen_fresh_meta),
                old(gen_fresh_tyvar),
            ),
        },
{
    let mut sv = clone_type_map(sigma_v);
    let mut sm = clone_type_map(sigma_m);
    let mut pa = clone_flag_map(pub_access);
    let mut gm = clone_meta_gen(gen_fresh_meta);
    let mut gt = clone_tyvar_gen(gen_fresh_tyvar);
    match check_decl_in(&mut sv, &mut sm, &mut pa, &mut gm, &mut gt, decl, fuel) {
        Some(x) => {
            *sigma_v = sv;
            *sigma_m = sm;
            *pub_access = pa;
            *gen_fresh_meta = gm;
            *gen_fresh_tyvar = gt;
            Some(x)
        },
        None => None,
    }
}

/// Checks the declarations of a service one after the other, from a state
/// with nothing in scope. Returns what the metavariables are bound to and
/// the types of the variables in scope at the end; `None` where a
/// declaration has no outcome or is ill typed.
#[verifier::loop_isolation(false)]
pub fn check_prog_test(srv: &Service, fuel: usize) -> (r: Option<(NameMap<Type>, NameMap<Type>)>)
    ensures
        match srv {
            Service::Srv { decls, .. } => match declared_all(decls@, 0, initial(), fuel as nat) {
                Some(d) => r matches Some((sigma_m, sigma_v)) && sigma_m.wf() && sigma_v.wf()
                    && sigma_m@ == d.store.sigma_m && env_of(&sigma_v) == d.sigma_v,
                None => r is None,
            },
        },
{
    let mut gen_fresh_meta = FreshMetaGenerator::new("default", 0);
    let mut gen_fresh_tyvar = FreshTyvarGenerator::new("default", 0);
    let mut sigma_v: NameMap<Type> = NameMap::new();
    let mut sigma_m: NameMap<Type> = NameMap::new();
    let mut pub_access: NameMap<bool> = NameMap::new();
    match srv {
        Service::Srv { name: _, decls } => {
            proof {
                assert(names_of(sigma_v.keys@) =~= Seq::<Seq<char>>::empty());
            }
            let mut i: usize = 0;
            while i < decls.len()
                invariant
                    i <= decls.len(),
                    sigma_v.wf(),
                    sigma_m.wf(),
                    pub_access.wf(),
                    declared_all(decls@, 0, initial(), fuel as nat) == declared_all(
                        decls@,
                        i as nat,
                        held(
                            Ok(()),
                            &sigma_v,
                            &sigma_m,
                            &pub_access,
                            &gen_fresh_meta,
                            &gen_fresh_tyvar,
                        ),
                        fuel as nat,
                    ),
                decreases decls.len() - i,
            {
                match check_decl_in(
                    &mut sigma_v,
                    &mut sigma_m,
                    &mut pub_access,
                    &mut gen_fresh_meta,
                    &mut gen_fresh_tyvar,
                    &decls[i],
                    fuel,
                ) {
                    Some(Ok(_)) => {},
                    _ => {
                        return None;
                    },
                }
                i += 1;
            }
            Some((sigma_m, sigma_v))
        },
    }
}

} // verus!
