use meerkat::frontend::meerast::{Binop, Decl, Expr, Service, Uop};
use meerkat::frontend::typecheck::{
    all_metas_in_type, all_metas_in_type_bottom, check_decl, check_expr, check_prog_test,
    generalize, id_is_used_in_expr, instantiate, lookup_sigma_m_bottom, meta_is_in_sigma_v, subst,
    unify, FreshMetaGenerator, FreshTyvarGenerator, Type,
};
use meerkat::names::NameMap;

const FUEL: usize = 64;

fn tyvar(name: &str) -> Type {
    Type::Tyvar { name: name.to_string() }
}

fn meta(name: &str) -> Type {
    Type::Meta { name: name.to_string() }
}

fn fun(pars: Vec<Type>, ret: Type) -> Type {
    Type::Fun { par_types: pars, ret_type: Box::new(ret) }
}

fn poly(tyvars: Vec<Type>, body: Type) -> Type {
    Type::Poly { tyvars, poly_type: Box::new(body) }
}

fn types(entries: Vec<(&str, Type)>) -> NameMap<Type> {
    let mut m: NameMap<Type> = NameMap::new();
    for (k, v) in entries {
        m.insert(k.to_string(), v);
    }
    m
}

fn id(name: &str) -> Expr {
    Expr::IdExpr { ident: name.to_string() }
}

fn num(val: i32) -> Expr {
    Expr::IntConst { val }
}

fn boolean(val: bool) -> Expr {
    Expr::BoolConst { val }
}

fn bop(bop: Binop, a: Expr, b: Expr) -> Expr {
    Expr::BopExpr { opd1: Box::new(a), opd2: Box::new(b), bop }
}

fn lambda(pars: &[&str], body: Expr) -> Expr {
    Expr::Lambda { pars: pars.iter().map(|p| id(p)).collect(), body: Box::new(body) }
}

fn member() -> Expr {
    Expr::Member { srv_name: "other".to_string(), member: Box::new(id("x")) }
}

fn gens() -> (FreshMetaGenerator, FreshTyvarGenerator) {
    (FreshMetaGenerator::new("default", 0), FreshTyvarGenerator::new("default", 0))
}

fn incompatible(a: &str, b: &str) -> String {
    format!("\x1b[31munification error, {} and {} incompatible\x1b[39m", a, b)
}

#[test]
fn fresh_variables_are_numbered() {
    let mut g = FreshTyvarGenerator::new("default", 0);
    assert_eq!(g.fresh(), tyvar("default#tyvar#0"));
    assert_eq!(g.fresh(), tyvar("default#tyvar#1"));
    assert_eq!(g.count, 2);
    let mut g = FreshMetaGenerator::new("svc", 41);
    assert_eq!(g.fresh(), meta("svc#meta#41"));
    assert_eq!(g.fresh(), meta("svc#meta#42"));
    let mut g = FreshMetaGenerator::new("s", -3);
    assert_eq!(g.fresh(), meta("s#meta#-3"));
    let mut g = FreshTyvarGenerator::new("s", 1209);
    assert_eq!(g.fresh(), tyvar("s#tyvar#1209"));
}

#[test]
fn chain_of_metas_is_followed_to_its_end() {
    let sigma = types(vec![("a", meta("b")), ("b", meta("c")), ("c", Type::Int)]);
    assert_eq!(lookup_sigma_m_bottom(&sigma, "a", FUEL), Some(Some(Type::Int)));
    assert_eq!(lookup_sigma_m_bottom(&sigma, "a", 2), Some(Some(Type::Int)));
    assert_eq!(lookup_sigma_m_bottom(&sigma, "a", 1), None);
    assert_eq!(lookup_sigma_m_bottom(&sigma, "c", 0), Some(Some(Type::Int)));
    assert_eq!(lookup_sigma_m_bottom(&sigma, "z", 0), Some(None));
    let open = types(vec![("a", meta("b"))]);
    assert_eq!(lookup_sigma_m_bottom(&open, "a", 0), Some(Some(meta("b"))));
    let circle = types(vec![("a", meta("b")), ("b", meta("a"))]);
    assert_eq!(lookup_sigma_m_bottom(&circle, "a", FUEL), None);
}

#[test]
fn substitution_replaces_type_variables_and_bound_metas() {
    let mut g = FreshTyvarGenerator::new("default", 0);
    let map = types(vec![("t", Type::Int)]);
    let sigma = types(vec![("m", meta("n")), ("n", tyvar("t"))]);
    let ty = fun(vec![tyvar("t"), tyvar("u"), meta("m"), meta("free")], Type::Bool);
    assert_eq!(
        subst(&mut g, &ty, &map, &sigma, FUEL),
        Some(fun(vec![Type::Int, tyvar("u"), Type::Int, meta("free")], Type::Bool))
    );
    assert_eq!(g.count, 0);
    assert_eq!(subst(&mut g, &meta("m"), &map, &sigma, 0), None);
    assert_eq!(subst(&mut g, &meta("m"), &map, &sigma, 1), Some(Type::Int));
}

#[test]
fn substitution_renames_parameters_of_polymorphic_types() {
    let mut g = FreshTyvarGenerator::new("default", 0);
    let map = types(vec![("b", Type::Int)]);
    let sigma = types(vec![]);
    let ty = poly(vec![tyvar("a")], fun(vec![tyvar("a")], tyvar("b")));
    let fresh = tyvar("default#tyvar#0");
    assert_eq!(
        subst(&mut g, &ty, &map, &sigma, FUEL),
        Some(poly(vec![fresh.clone()], fun(vec![fresh], Type::Int)))
    );
    assert_eq!(g.count, 1);
    assert_eq!(subst(&mut g, &ty, &map, &sigma, 0), None);
    assert_eq!(g.count, 1);
    let odd = poly(vec![Type::Int], Type::Int);
    assert_eq!(subst(&mut g, &odd, &map, &sigma, FUEL), None);
    assert_eq!(g.count, 1);
    let mut used_up = FreshTyvarGenerator::new("default", i32::MAX);
    assert_eq!(subst(&mut used_up, &ty, &map, &sigma, FUEL), None);
    assert_eq!(used_up.count, i32::MAX);
}

#[test]
fn metas_are_collected_in_order_of_occurrence() {
    let ty = fun(vec![meta("a"), fun(vec![meta("b")], meta("a")), tyvar("t")], meta("c"));
    assert_eq!(all_metas_in_type(&ty).to_vec(), vec!["a", "b", "c"]);
    assert_eq!(all_metas_in_type(&Type::Int).to_vec(), Vec::<String>::new());
    assert_eq!(all_metas_in_type(&poly(vec![tyvar("t")], meta("m"))).to_vec(), vec!["m"]);
}

#[test]
fn bottom_metas_are_the_unbound_ends_of_chains() {
    let sigma = types(vec![("a", meta("b")), ("c", Type::Int)]);
    let ty = fun(vec![meta("a"), meta("c")], meta("d"));
    assert_eq!(all_metas_in_type_bottom(&sigma, &ty, FUEL).map(|s| s.to_vec()), Some(vec![
        "b".to_string(),
        "d".to_string()
    ]));
    assert_eq!(all_metas_in_type_bottom(&sigma, &ty, 0).map(|s| s.to_vec()), None);
    let circle = types(vec![("a", meta("a"))]);
    assert_eq!(all_metas_in_type_bottom(&circle, &meta("a"), FUEL).map(|s| s.to_vec()), None);
}

#[test]
fn meta_in_scope_is_found_through_bindings() {
    let sigma_v = types(vec![("x", meta("a"))]);
    let sigma_m = types(vec![("a", fun(vec![meta("b")], Type::Int))]);
    assert_eq!(meta_is_in_sigma_v("x", &sigma_m, &sigma_v, FUEL), Some(true));
    assert_eq!(meta_is_in_sigma_v("a", &sigma_m, &sigma_v, FUEL), Some(true));
    assert_eq!(meta_is_in_sigma_v("b", &sigma_m, &sigma_v, FUEL), Some(true));
    assert_eq!(meta_is_in_sigma_v("b", &sigma_m, &sigma_v, 0), None);
    assert_eq!(meta_is_in_sigma_v("q", &sigma_m, &sigma_v, FUEL), None);
    let closed = types(vec![("a", Type::Int)]);
    assert_eq!(meta_is_in_sigma_v("q", &closed, &sigma_v, FUEL), Some(false));
    assert_eq!(meta_is_in_sigma_v("q", &closed, &types(vec![]), 0), Some(false));
}

#[test]
fn generalize_binds_loose_metas_to_fresh_type_variables() {
    let mut sigma_m = types(vec![]);
    let sigma_v = types(vec![]);
    let mut g = FreshTyvarGenerator::new("default", 0);
    let ty = fun(vec![meta("a")], meta("a"));
    assert_eq!(
        generalize(&mut sigma_m, &sigma_v, &ty, &mut g, FUEL),
        Some(poly(vec![tyvar("default#tyvar#0")], ty.clone()))
    );
    assert_eq!(sigma_m.get(&"a".to_string()), Some(&tyvar("default#tyvar#0")));
    assert_eq!(g.count, 1);
    assert_eq!(
        generalize(&mut sigma_m, &sigma_v, &Type::Int, &mut g, FUEL),
        Some(poly(vec![], Type::Int))
    );
    assert_eq!(g.count, 1);
}

#[test]
fn generalize_leaves_metas_in_scope_alone() {
    let mut sigma_m = types(vec![]);
    let sigma_v = types(vec![("a", Type::Int)]);
    let mut g = FreshTyvarGenerator::new("default", 0);
    let ty = fun(vec![meta("a")], meta("b"));
    assert_eq!(
        generalize(&mut sigma_m, &sigma_v, &ty, &mut g, FUEL),
        Some(poly(vec![tyvar("default#tyvar#0")], ty.clone()))
    );
    assert_eq!(sigma_m.get(&"a".to_string()), None);
    assert_eq!(sigma_m.get(&"b".to_string()), Some(&tyvar("default#tyvar#0")));
    let mut used_up = FreshTyvarGenerator::new("default", i32::MAX);
    let mut sigma_m = types(vec![]);
    assert_eq!(generalize(&mut sigma_m, &sigma_v, &ty, &mut used_up, FUEL), None);
    assert_eq!(sigma_m.len(), 0);
}

#[test]
fn instantiate_puts_fresh_metas_for_parameters() {
    let sigma_m = types(vec![]);
    let (mut gm, mut gt) = gens();
    let ty = poly(vec![tyvar("t")], fun(vec![tyvar("t")], tyvar("t")));
    let m0 = meta("default#meta#0");
    assert_eq!(
        instantiate(&sigma_m, &mut gt, &mut gm, &ty, FUEL),
        Some(fun(vec![m0.clone()], m0))
    );
    assert_eq!(gm.count, 1);
    assert_eq!(instantiate(&sigma_m, &mut gt, &mut gm, &Type::Bool, FUEL), Some(Type::Bool));
    assert_eq!(gm.count, 1);
    let odd = poly(vec![Type::Int], Type::Int);
    assert_eq!(instantiate(&sigma_m, &mut gt, &mut gm, &odd, FUEL), None);
    assert_eq!(gm.count, 1);
}

#[test]
fn equal_base_types_unify() {
    let mut sigma_m = types(vec![]);
    let (mut gm, mut gt) = gens();
    for t in [Type::Int, Type::Bool, Type::Unit, Type::Action] {
        assert_eq!(unify(&mut sigma_m, &mut gm, &mut gt, &t, &t, 0), Some(Ok(())));
    }
    assert_eq!(sigma_m.len(), 0);
}

#[test]
fn different_types_are_incompatible() {
    let mut sigma_m = types(vec![]);
    let (mut gm, mut gt) = gens();
    assert_eq!(
        unify(&mut sigma_m, &mut gm, &mut gt, &Type::Int, &Type::Bool, FUEL),
        Some(Err(incompatible("Int", "Bool")))
    );
    assert_eq!(
        unify(&mut sigma_m, &mut gm, &mut gt, &tyvar("t"), &Type::Unit, FUEL),
        Some(Err(incompatible("Tyvar { name: \"t\" }", "Unit")))
    );
}

#[test]
fn unbound_meta_is_bound_by_unification() {
    let mut sigma_m = types(vec![]);
    let (mut gm, mut gt) = gens();
    assert_eq!(unify(&mut sigma_m, &mut gm, &mut gt, &meta("a"), &Type::Int, 0), Some(Ok(())));
    assert_eq!(sigma_m.get(&"a".to_string()), Some(&Type::Int));
    assert_eq!(unify(&mut sigma_m, &mut gm, &mut gt, &meta("a"), &Type::Int, 1), Some(Ok(())));
    assert_eq!(unify(&mut sigma_m, &mut gm, &mut gt, &meta("a"), &Type::Int, 0), None);
    assert_eq!(
        unify(&mut sigma_m, &mut gm, &mut gt, &meta("a"), &Type::Bool, FUEL),
        Some(Err(incompatible("Int", "Bool")))
    );
    assert_eq!(unify(&mut sigma_m, &mut gm, &mut gt, &Type::Bool, &meta("b"), FUEL), Some(Ok(())));
    assert_eq!(sigma_m.get(&"b".to_string()), Some(&Type::Bool));
    assert_eq!(unify(&mut sigma_m, &mut gm, &mut gt, &Type::Bool, &meta("c"), 0), None);
    assert_eq!(sigma_m.get(&"c".to_string()), None);
}

#[test]
fn metas_unify_with_each_other() {
    let mut sigma_m = types(vec![]);
    let (mut gm, mut gt) = gens();
    assert_eq!(unify(&mut sigma_m, &mut gm, &mut gt, &meta("a"), &meta("a"), 0), Some(Ok(())));
    assert_eq!(sigma_m.len(), 0);
    assert_eq!(unify(&mut sigma_m, &mut gm, &mut gt, &meta("a"), &meta("b"), 0), Some(Ok(())));
    assert_eq!(sigma_m.get(&"a".to_string()), Some(&meta("b")));
    assert_eq!(unify(&mut sigma_m, &mut gm, &mut gt, &meta("c"), &meta("a"), FUEL), Some(Ok(())));
    assert_eq!(sigma_m.get(&"c".to_string()), Some(&meta("b")));
}

#[test]
fn meta_is_not_bound_to_a_type_that_holds_it() {
    let mut sigma_m = types(vec![]);
    let (mut gm, mut gt) = gens();
    let ty = fun(vec![meta("a")], Type::Int);
    assert_eq!(
        unify(&mut sigma_m, &mut gm, &mut gt, &meta("a"), &ty, FUEL),
        Some(Err("ty1==Meta(alpha) in t, while t!=Meta(alpha)".to_string()))
    );
    assert_eq!(sigma_m.len(), 0);
}

#[test]
fn type_variables_unify_only_with_themselves() {
    let mut sigma_m = types(vec![]);
    let (mut gm, mut gt) = gens();
    assert_eq!(unify(&mut sigma_m, &mut gm, &mut gt, &tyvar("t"), &tyvar("t"), 0), Some(Ok(())));
    assert_eq!(
        unify(&mut sigma_m, &mut gm, &mut gt, &tyvar("t"), &tyvar("u"), 0),
        Some(Err("unifying two different tyvars".to_string()))
    );
}

#[test]
fn function_types_unify_pair_by_pair() {
    let mut sigma_m = types(vec![]);
    let (mut gm, mut gt) = gens();
    let f = fun(vec![meta("a"), Type::Bool], meta("r"));
    let g = fun(vec![Type::Int, meta("b")], Type::Unit);
    assert_eq!(unify(&mut sigma_m, &mut gm, &mut gt, &f, &g, FUEL), Some(Ok(())));
    assert_eq!(sigma_m.get(&"a".to_string()), Some(&Type::Int));
    assert_eq!(sigma_m.get(&"b".to_string()), Some(&Type::Bool));
    assert_eq!(sigma_m.get(&"r".to_string()), Some(&Type::Unit));
    let h = fun(vec![Type::Int, Type::Int], Type::Unit);
    assert_eq!(
        unify(&mut sigma_m, &mut gm, &mut gt, &f, &h, FUEL),
        Some(Err(incompatible("Bool", "Int")))
    );
    let short = fun(vec![], Type::Unit);
    assert_eq!(unify(&mut sigma_m, &mut gm, &mut gt, &h, &short, FUEL), Some(Ok(())));
}

#[test]
fn polymorphic_types_need_matching_parameters() {
    let mut sigma_m = types(vec![]);
    let (mut gm, mut gt) = gens();
    let one = poly(vec![tyvar("a")], tyvar("a"));
    let none = poly(vec![], Type::Int);
    assert_eq!(
        unify(&mut sigma_m, &mut gm, &mut gt, &one, &none, FUEL),
        Some(Err("\x1b[31munification error, poly tyvars lengths differ".to_string()))
    );
    let odd = poly(vec![Type::Int], Type::Int);
    assert_eq!(
        unify(&mut sigma_m, &mut gm, &mut gt, &odd, &odd, FUEL),
        Some(Err("non tyvar within polytype args".to_string()))
    );
    assert_eq!(unify(&mut sigma_m, &mut gm, &mut gt, &none, &none, FUEL), Some(Ok(())));
    let left = poly(vec![tyvar("a")], fun(vec![tyvar("b")], Type::Int));
    let right = poly(vec![tyvar("b")], fun(vec![tyvar("a")], Type::Int));
    assert_eq!(unify(&mut sigma_m, &mut gm, &mut gt, &left, &right, FUEL), Some(Ok(())));
    assert_eq!(gt.count, 0);
}

#[test]
fn identifier_use_is_looked_for_in_operands() {
    assert_eq!(id_is_used_in_expr("x", &id("x")), Some(true));
    assert_eq!(id_is_used_in_expr("x", &id("y")), Some(false));
    assert_eq!(id_is_used_in_expr("x", &num(1)), Some(false));
    assert_eq!(id_is_used_in_expr("x", &bop(Binop::Add, num(1), id("x"))), Some(true));
    assert_eq!(id_is_used_in_expr("x", &bop(Binop::Add, id("x"), member())), Some(true));
    assert_eq!(id_is_used_in_expr("x", &bop(Binop::Add, num(1), member())), None);
    assert_eq!(id_is_used_in_expr("x", &member()), None);
    assert_eq!(id_is_used_in_expr("x", &lambda(&["y"], id("x"))), Some(false));
    let call = Expr::Apply { fun: Box::new(id("f")), args: vec![num(1), id("x")] };
    assert_eq!(id_is_used_in_expr("x", &call), Some(true));
    assert_eq!(id_is_used_in_expr("f", &call), Some(true));
    assert_eq!(id_is_used_in_expr("g", &call), Some(false));
    let deep = Expr::Apply { fun: Box::new(id("f")), args: vec![bop(Binop::Add, id("x"), num(1))] };
    assert_eq!(id_is_used_in_expr("x", &deep), Some(false));
    let unnamed = Expr::Apply { fun: Box::new(lambda(&[], num(1))), args: vec![] };
    assert_eq!(id_is_used_in_expr("", &unnamed), Some(true));
    let cond = Expr::IfExpr {
        cond: Box::new(boolean(true)),
        then: Box::new(num(1)),
        elze: Box::new(id("x")),
    };
    assert_eq!(id_is_used_in_expr("x", &cond), Some(true));
    let not = Expr::UopExpr { opd: Box::new(id("x")), uop: Uop::Not };
    assert_eq!(id_is_used_in_expr("x", &not), Some(true));
}

#[test]
fn expressions_have_types() {
    let sigma_v = types(vec![("x", poly(vec![], Type::Int)), ("p", Type::Bool)]);
    let mut sigma_m = types(vec![]);
    let (mut gm, mut gt) = gens();
    let mut check = |e: &Expr| check_expr(&sigma_v, &mut sigma_m, &mut gm, &mut gt, e, FUEL);
    assert_eq!(check(&num(1)), Some(Ok(Type::Int)));
    assert_eq!(check(&boolean(true)), Some(Ok(Type::Bool)));
    assert_eq!(check(&id("x")), Some(Ok(Type::Int)));
    assert_eq!(check(&bop(Binop::Add, id("x"), num(1))), Some(Ok(Type::Int)));
    assert_eq!(check(&bop(Binop::Lt, id("x"), num(1))), Some(Ok(Type::Bool)));
    assert_eq!(check(&bop(Binop::And, id("p"), boolean(false))), Some(Ok(Type::Bool)));
    assert_eq!(
        check(&bop(Binop::Add, id("x"), id("p"))),
        Some(Err(incompatible("Bool", "Int")))
    );
    assert_eq!(
        check(&Expr::UopExpr { opd: Box::new(id("x")), uop: Uop::Neg }),
        Some(Ok(Type::Int))
    );
    assert_eq!(
        check(&Expr::UopExpr { opd: Box::new(id("x")), uop: Uop::Not }),
        Some(Err(incompatible("Int", "Bool")))
    );
    let cond = Expr::IfExpr {
        cond: Box::new(id("p")),
        then: Box::new(num(1)),
        elze: Box::new(id("x")),
    };
    assert_eq!(check(&cond), Some(Ok(Type::Int)));
    let bad = Expr::IfExpr {
        cond: Box::new(id("x")),
        then: Box::new(num(1)),
        elze: Box::new(num(2)),
    };
    assert_eq!(check(&bad), Some(Err(incompatible("Int", "Bool"))));
    assert_eq!(check(&id("nowhere")), None);
    assert_eq!(check(&member()), None);
}

#[test]
fn lambda_and_application_are_inferred() {
    let sigma_v = types(vec![]);
    let mut sigma_m = types(vec![]);
    let (mut gm, mut gt) = gens();
    let inc = lambda(&["x"], bop(Binop::Add, id("x"), num(1)));
    let m0 = meta("default#meta#0");
    let m1 = meta("default#meta#1");
    assert_eq!(
        check_expr(&sigma_v, &mut sigma_m, &mut gm, &mut gt, &inc, FUEL),
        Some(Ok(fun(vec![m0], m1)))
    );
    assert_eq!(sigma_m.get(&"default#meta#0".to_string()), Some(&Type::Int));
    assert_eq!(sigma_m.get(&"default#meta#1".to_string()), Some(&Type::Int));
    assert_eq!(gm.count, 2);
    let call = Expr::Apply { fun: Box::new(inc), args: vec![num(3)] };
    assert_eq!(
        check_expr(&sigma_v, &mut sigma_m, &mut gm, &mut gt, &call, FUEL),
        Some(Ok(meta("default#meta#4")))
    );
    assert_eq!(lookup_sigma_m_bottom(&sigma_m, "default#meta#4", FUEL), Some(Some(Type::Int)));
    let odd = Expr::Lambda { pars: vec![num(1)], body: Box::new(num(2)) };
    let before = gm.count;
    assert_eq!(check_expr(&sigma_v, &mut sigma_m, &mut gm, &mut gt, &odd, FUEL), None);
    assert_eq!(gm.count, before);
}

#[test]
fn declarations_enter_scope() {
    let mut sigma_v = types(vec![]);
    let mut sigma_m = types(vec![]);
    let mut pub_access: NameMap<bool> = NameMap::new();
    let (mut gm, mut gt) = gens();
    let x = Decl::VarDecl { name: "x".to_string(), val: num(1) };
    assert_eq!(
        check_decl(&mut sigma_v, &mut sigma_m, &mut pub_access, &mut gm, &mut gt, &x, FUEL),
        Some(Ok(()))
    );
    assert_eq!(sigma_v.get(&"x".to_string()), Some(&poly(vec![], Type::Int)));
    assert_eq!(pub_access.len(), 0);
    let a = Decl::DefDecl {
        name: "a".to_string(),
        val: bop(Binop::Add, id("x"), num(1)),
        is_pub: true,
    };
    assert_eq!(
        check_decl(&mut sigma_v, &mut sigma_m, &mut pub_access, &mut gm, &mut gt, &a, FUEL),
        Some(Ok(()))
    );
    assert_eq!(sigma_v.get(&"a".to_string()), Some(&poly(vec![], Type::Int)));
    assert_eq!(pub_access.get(&"a".to_string()), Some(&true));
    let import = Decl::Import { srv_name: "other".to_string() };
    assert_eq!(
        check_decl(&mut sigma_v, &mut sigma_m, &mut pub_access, &mut gm, &mut gt, &import, FUEL),
        Some(Ok(()))
    );
    assert_eq!(sigma_v.len(), 2);
}

#[test]
fn ill_typed_declaration_is_not_entered() {
    let mut sigma_v = types(vec![]);
    let mut sigma_m = types(vec![]);
    let mut pub_access: NameMap<bool> = NameMap::new();
    let (mut gm, mut gt) = gens();
    let bad = Decl::DefDecl {
        name: "y".to_string(),
        val: bop(Binop::Add, num(1), boolean(true)),
        is_pub: false,
    };
    assert_eq!(
        check_decl(&mut sigma_v, &mut sigma_m, &mut pub_access, &mut gm, &mut gt, &bad, FUEL),
        Some(Err(incompatible("Bool", "Int")))
    );
    assert_eq!(sigma_v.len(), 0);
    assert_eq!(pub_access.len(), 0);
    let unknown = Decl::VarDecl { name: "z".to_string(), val: id("nowhere") };
    assert_eq!(
        check_decl(&mut sigma_v, &mut sigma_m, &mut pub_access, &mut gm, &mut gt, &unknown, FUEL),
        None
    );
    assert_eq!(sigma_v.len(), 0);
}

#[test]
fn polymorphic_declaration_is_generalised() {
    let mut sigma_v = types(vec![]);
    let mut sigma_m = types(vec![]);
    let mut pub_access: NameMap<bool> = NameMap::new();
    let (mut gm, mut gt) = gens();
    let ident =
        Decl::DefDecl { name: "i".to_string(), val: lambda(&["x"], id("x")), is_pub: false };
    assert_eq!(
        check_decl(&mut sigma_v, &mut sigma_m, &mut pub_access, &mut gm, &mut gt, &ident, FUEL),
        Some(Ok(()))
    );
    let m0 = meta("default#meta#0");
    let m1 = meta("default#meta#1");
    assert_eq!(
        sigma_v.get(&"i".to_string()),
        Some(&poly(vec![tyvar("default#tyvar#0")], fun(vec![m0], m1)))
    );
    assert_eq!(sigma_m.get(&"default#meta#1".to_string()), Some(&meta("default#meta#0")));
    assert_eq!(sigma_m.get(&"default#meta#0".to_string()), Some(&tyvar("default#tyvar#0")));
}

#[test]
fn program_is_checked_declaration_by_declaration() {
    let srv = Service::Srv {
        name: "main".to_string(),
        decls: vec![
            Decl::VarDecl { name: "x".to_string(), val: num(1) },
            Decl::DefDecl {
                name: "a".to_string(),
                val: bop(Binop::Mul, id("x"), num(2)),
                is_pub: false,
            },
        ],
    };
    let (sigma_m, sigma_v) = check_prog_test(&srv, FUEL).unwrap();
    assert_eq!(sigma_m.len(), 0);
    assert_eq!(sigma_v.keys, vec!["x".to_string(), "a".to_string()]);
    assert_eq!(sigma_v.get(&"a".to_string()), Some(&poly(vec![], Type::Int)));
    let bad = Service::Srv {
        name: "main".to_string(),
        decls: vec![Decl::VarDecl { name: "x".to_string(), val: bop(Binop::Or, num(1), num(2)) }],
    };
    assert!(check_prog_test(&bad, FUEL).is_none());
}
