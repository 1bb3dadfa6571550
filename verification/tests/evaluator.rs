use meerkat::backend::evaluator::Replica;
use meerkat::backend::message::{EvalError, Val};
use meerkat::backend::worker::Worker;
use meerkat::frontend::meerast::{Binop, Expr, SglStmt, Stmt, Uop};
use meerkat::names::NameMap;

fn id(name: &str) -> Expr {
    Expr::IdExpr { ident: name.to_string() }
}

fn num(val: i32) -> Expr {
    Expr::IntConst { val }
}

fn boolean(val: bool) -> Expr {
    Expr::BoolConst { val }
}

fn bop(bop: Binop, a: Expr, b: Expr) -> Expr {
    Expr::BopExpr { opd1: Box::new(a), opd2: Box::new(b), bop }
}

fn uop(uop: Uop, a: Expr) -> Expr {
    Expr::UopExpr { opd: Box::new(a), uop }
}

fn ite(c: Expr, t: Expr, e: Expr) -> Expr {
    Expr::IfExpr { cond: Box::new(c), then: Box::new(t), elze: Box::new(e) }
}

fn lambda(pars: &[&str], body: Expr) -> Expr {
    Expr::Lambda { pars: pars.iter().map(|p| id(p)).collect(), body: Box::new(body) }
}

fn apply(fun: Expr, args: Vec<Expr>) -> Expr {
    Expr::Apply { fun: Box::new(fun), args }
}

fn replica(entries: Vec<(&str, Option<Val>)>) -> Replica {
    let mut r: Replica = NameMap::new();
    for (k, v) in entries {
        r.insert(k.to_string(), v);
    }
    r
}

const FUEL: usize = 64;

#[test]
fn literals_evaluate_to_themselves() {
    let r = replica(vec![]);
    assert_eq!(Worker::compute_val(&num(7), &r), Ok(Val::Int(7)));
    assert_eq!(Worker::compute_val(&boolean(false), &r), Ok(Val::Bool(false)));
}

#[test]
fn identifier_is_looked_up_in_replica() {
    let r = replica(vec![("x", Some(Val::Int(3))), ("y", Some(Val::Bool(true)))]);
    assert_eq!(Worker::compute_val(&id("x"), &r), Ok(Val::Int(3)));
    assert_eq!(Worker::compute_val(&id("y"), &r), Ok(Val::Bool(true)));
}

#[test]
fn missing_identifier_is_a_fault() {
    let r = replica(vec![("x", None)]);
    assert_eq!(Worker::try_compute_val(&id("x"), &r, FUEL), None);
    assert_eq!(Worker::try_compute_val(&id("z"), &r, FUEL), None);
}

#[test]
fn integer_division_truncates() {
    let r = replica(vec![]);
    assert_eq!(Worker::compute_val(&bop(Binop::Div, num(5), num(2)), &r), Ok(Val::Int(2)));
    assert_eq!(Worker::compute_val(&bop(Binop::Div, num(-5), num(2)), &r), Ok(Val::Int(-2)));
    assert_eq!(Worker::compute_val(&bop(Binop::Div, num(5), num(-2)), &r), Ok(Val::Int(-2)));
    assert_eq!(Worker::compute_val(&bop(Binop::Div, num(-5), num(-2)), &r), Ok(Val::Int(2)));
    assert_eq!(Worker::compute_val(&bop(Binop::Div, num(0), num(-2)), &r), Ok(Val::Int(0)));
}

#[test]
fn division_by_zero_has_no_value() {
    let r = replica(vec![("x", Some(Val::Int(9)))]);
    assert_eq!(Worker::try_compute_val(&bop(Binop::Div, id("x"), num(0)), &r, FUEL), None);
}

#[test]
fn arithmetic_and_comparison() {
    let r = replica(vec![]);
    assert_eq!(Worker::compute_val(&bop(Binop::Add, num(2), num(3)), &r), Ok(Val::Int(5)));
    assert_eq!(Worker::compute_val(&bop(Binop::Sub, num(2), num(3)), &r), Ok(Val::Int(-1)));
    assert_eq!(Worker::compute_val(&bop(Binop::Mul, num(4), num(3)), &r), Ok(Val::Int(12)));
    assert_eq!(Worker::compute_val(&bop(Binop::Eq, num(4), num(4)), &r), Ok(Val::Bool(true)));
    assert_eq!(Worker::compute_val(&bop(Binop::Lt, num(4), num(3)), &r), Ok(Val::Bool(false)));
    assert_eq!(Worker::compute_val(&bop(Binop::Gt, num(4), num(3)), &r), Ok(Val::Bool(true)));
    assert_eq!(
        Worker::compute_val(&bop(Binop::And, boolean(true), boolean(false)), &r),
        Ok(Val::Bool(false))
    );
    assert_eq!(
        Worker::compute_val(&bop(Binop::Or, boolean(true), boolean(false)), &r),
        Ok(Val::Bool(true))
    );
    assert_eq!(Worker::compute_val(&uop(Uop::Neg, num(4)), &r), Ok(Val::Int(-4)));
    assert_eq!(Worker::compute_val(&uop(Uop::Not, boolean(true)), &r), Ok(Val::Bool(false)));
}

#[test]
fn overflow_has_no_value() {
    let r = replica(vec![]);
    assert_eq!(Worker::try_compute_val(&bop(Binop::Add, num(i32::MAX), num(1)), &r, FUEL), None);
    assert_eq!(Worker::try_compute_val(&bop(Binop::Sub, num(i32::MIN), num(1)), &r, FUEL), None);
    assert_eq!(Worker::try_compute_val(&bop(Binop::Mul, num(i32::MAX), num(2)), &r, FUEL), None);
    assert_eq!(Worker::try_compute_val(&bop(Binop::Div, num(i32::MIN), num(-1)), &r, FUEL), None);
    assert_eq!(Worker::try_compute_val(&uop(Uop::Neg, num(i32::MIN)), &r, FUEL), None);
    assert_eq!(
        Worker::try_compute_val(&uop(Uop::Neg, num(i32::MAX)), &r, FUEL),
        Some(Ok(Val::Int(-i32::MAX)))
    );
}

#[test]
fn operator_on_wrong_kind_has_no_value() {
    let r = replica(vec![]);
    assert_eq!(Worker::try_compute_val(&bop(Binop::Add, num(1), boolean(true)), &r, FUEL), None);
    assert_eq!(Worker::try_compute_val(&bop(Binop::And, num(1), boolean(true)), &r, FUEL), None);
    assert_eq!(
        Worker::try_compute_val(&bop(Binop::Eq, boolean(true), boolean(true)), &r, FUEL),
        None
    );
    assert_eq!(Worker::try_compute_val(&uop(Uop::Not, num(1)), &r, FUEL), None);
    assert_eq!(Worker::try_compute_val(&uop(Uop::Neg, boolean(true)), &r, FUEL), None);
    assert_eq!(Worker::try_compute_val(&ite(num(1), num(2), num(3)), &r, FUEL), None);
}

#[test]
fn conditional_evaluates_one_branch() {
    let r = replica(vec![]);
    let faulty = bop(Binop::Div, num(1), num(0));
    assert_eq!(
        Worker::compute_val(&ite(boolean(true), num(1), faulty.clone()), &r),
        Ok(Val::Int(1))
    );
    assert_eq!(Worker::compute_val(&ite(boolean(false), faulty, num(2)), &r), Ok(Val::Int(2)));
}

#[test]
fn application_substitutes_and_evaluates() {
    let r = replica(vec![]);
    let f = lambda(&["x"], ite(id("x"), num(1), num(0)));
    assert_eq!(Worker::compute_val(&apply(f.clone(), vec![boolean(true)]), &r), Ok(Val::Int(1)));
    assert_eq!(Worker::compute_val(&apply(f, vec![boolean(false)]), &r), Ok(Val::Int(0)));
}

#[test]
fn substitution_replaces_parameters() {
    let f = lambda(&["x", "y"], bop(Binop::Add, id("x"), bop(Binop::Mul, id("y"), id("z"))));
    let got = Worker::subst_pars_with_args(&f, &vec![num(1), id("w")]);
    assert_eq!(got, bop(Binop::Add, num(1), bop(Binop::Mul, id("w"), id("z"))));
}

#[test]
fn substitution_stops_at_rebinding_lambda() {
    let inner = lambda(&["x"], bop(Binop::Add, id("x"), id("y")));
    let f = lambda(&["x", "y"], apply(inner, vec![id("x")]));
    let got = Worker::subst_pars_with_args(&f, &vec![num(1), num(2)]);
    let want = apply(lambda(&["x"], bop(Binop::Add, id("x"), num(2))), vec![num(1)]);
    assert_eq!(got, want);
}

#[test]
fn substitution_takes_later_of_repeated_parameters() {
    let f = lambda(&["x", "x"], id("x"));
    let got = Worker::subst_pars_with_args(&f, &vec![num(1), num(2)]);
    assert_eq!(got, num(2));
}

#[test]
fn substitution_walks_action_blocks() {
    let block = Expr::Action {
        stmt: Stmt::Stmt {
            sgl_stmts: vec![
                SglStmt::Do { act: id("x") },
                SglStmt::Ass { dst: id("x"), src: id("x") },
            ],
        },
    };
    let got = Worker::subst_pars_with_args(&lambda(&["x"], block), &vec![num(5)]);
    let want = Expr::Action {
        stmt: Stmt::Stmt {
            sgl_stmts: vec![
                SglStmt::Do { act: num(5) },
                SglStmt::Ass { dst: id("x"), src: num(5) },
            ],
        },
    };
    assert_eq!(got, want);
}

#[test]
fn nested_application_needs_fuel() {
    let r = replica(vec![]);
    let inc = lambda(&["n"], bop(Binop::Add, id("n"), num(1)));
    let via = lambda(&["m"], apply(inc, vec![id("m")]));
    let e = apply(via, vec![num(5)]);
    assert_eq!(Worker::try_compute_val(&e, &r, 0), None);
    assert_eq!(Worker::try_compute_val(&e, &r, 1), None);
    assert_eq!(Worker::try_compute_val(&e, &r, 2), Some(Ok(Val::Int(6))));
    assert_eq!(Worker::try_compute_val(&e, &r, 9), Some(Ok(Val::Int(6))));
    assert_eq!(Worker::compute_val(&e, &r), Ok(Val::Int(6)));
}

#[test]
fn unsaturated_application_has_no_value() {
    let r = replica(vec![]);
    let f = lambda(&["x", "y"], id("x"));
    assert_eq!(Worker::try_compute_val(&apply(f, vec![num(1)]), &r, FUEL), None);
}

#[test]
fn application_of_non_lambda_has_no_value() {
    let f = lambda(&["x"], id("x"));
    let r = replica(vec![("f", Some(Val::Lambda(f)))]);
    assert_eq!(Worker::try_compute_val(&apply(id("f"), vec![num(1)]), &r, FUEL), None);
    assert_eq!(Worker::try_compute_val(&apply(num(3), vec![]), &r, FUEL), None);
}

fn unsupported() -> Result<Val, EvalError> {
    Err(EvalError::UnsupportedCapability)
}

#[test]
fn member_access_is_unsupported() {
    let r = replica(vec![]);
    let m = Expr::Member { srv_name: "other".to_string(), member: Box::new(id("x")) };
    assert_eq!(Worker::compute_val(&m, &r), unsupported());
    assert_eq!(Worker::try_compute_val(&m, &r, 0), Some(unsupported()));
    assert_eq!(Worker::compute_val(&bop(Binop::Add, num(1), m.clone()), &r), unsupported());
    let f = lambda(&["x"], ite(boolean(true), id("x"), m.clone()));
    assert_eq!(Worker::try_compute_val(&apply(f, vec![num(1)]), &r, FUEL), Some(unsupported()));
    assert_eq!(Worker::compute_val(&ite(boolean(true), num(1), m.clone()), &r), Ok(Val::Int(1)));
    assert_eq!(
        Worker::try_compute_val(&bop(Binop::Add, boolean(true), m.clone()), &r, FUEL),
        Some(unsupported())
    );
    assert_eq!(
        Worker::try_compute_val(&bop(Binop::Div, bop(Binop::Div, num(1), num(0)), m), &r, FUEL),
        None
    );
}

#[test]
fn diverging_application_runs_out_of_fuel() {
    let r = replica(vec![]);
    let omega = lambda(&["x"], apply(id("x"), vec![id("x")]));
    let looping = apply(omega.clone(), vec![omega]);
    assert_eq!(Worker::try_compute_val(&looping, &r, 0), None);
    assert_eq!(Worker::try_compute_val(&looping, &r, 50), None);
}

#[test]
fn action_and_lambda_are_values() {
    let r = replica(vec![]);
    let block = Expr::Action { stmt: Stmt::Stmt { sgl_stmts: vec![SglStmt::Do { act: id("q") }] } };
    assert_eq!(Worker::compute_val(&block, &r), Ok(Val::Action(block.clone())));
    let f = lambda(&["x"], id("x"));
    assert_eq!(Worker::compute_val(&f, &r), Ok(Val::Lambda(f.clone())));
}

#[test]
fn recomputation_gives_the_same_value() {
    let r = replica(vec![("x", Some(Val::Int(4)))]);
    let e = bop(Binop::Mul, id("x"), bop(Binop::Add, id("x"), num(1)));
    let first = Worker::compute_val(&e, &r);
    let second = Worker::compute_val(&e, &r);
    assert_eq!(first, Ok(Val::Int(20)));
    assert_eq!(first, second);
}
