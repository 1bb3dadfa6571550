use meerkat::backend::dependency::{
    admit_decl, check_acyclic, check_cyclic, decl_dependency, expr_dependency, is_traversable,
};
use meerkat::backend::graph::DependencyGraph;
use meerkat::frontend::meerast::{Binop, Decl, Expr, SglStmt, Stmt};
use meerkat::names::{NameMap, NameSet};

fn id(name: &str) -> Expr {
    Expr::IdExpr { ident: name.to_string() }
}

fn num(val: i32) -> Expr {
    Expr::IntConst { val }
}

fn plus(a: Expr, b: Expr) -> Expr {
    Expr::BopExpr { opd1: Box::new(a), opd2: Box::new(b), bop: Binop::Add }
}

fn lambda(pars: &[&str], body: Expr) -> Expr {
    Expr::Lambda { pars: pars.iter().map(|p| id(p)).collect(), body: Box::new(body) }
}

fn def(name: &str, val: Expr) -> Decl {
    Decl::DefDecl { name: name.to_string(), val, is_pub: false }
}

fn read_set(expr: &Expr) -> Vec<String> {
    let mut set = NameSet::new();
    expr_dependency(&mut set, expr);
    let mut names = set.to_vec();
    names.sort();
    names
}

fn reads_of(graph: &DependencyGraph, name: &str) -> Option<Vec<String>> {
    graph.get(&name.to_string()).map(|set| {
        let mut names = set.to_vec();
        names.sort();
        names
    })
}

#[test]
fn lambda_parameter_shadows_outer_name() {
    assert_eq!(read_set(&lambda(&["x"], plus(id("x"), id("y")))), vec!["y".to_string()]);
    assert_eq!(read_set(&lambda(&["x"], id("x"))), Vec::<String>::new());
}

#[test]
fn shadowing_holds_only_under_the_lambda() {
    let e = plus(id("y"), lambda(&["y"], id("y")));
    assert_eq!(read_set(&e), vec!["y".to_string()]);
    let e = plus(lambda(&["y"], id("y")), id("y"));
    assert_eq!(read_set(&e), vec!["y".to_string()]);
}

#[test]
fn read_set_collects_each_name_once() {
    let e = Expr::IfExpr {
        cond: Box::new(id("c")),
        then: Box::new(plus(id("a"), id("b"))),
        elze: Box::new(Expr::Apply { fun: Box::new(id("f")), args: vec![id("a"), num(1)] }),
    };
    assert_eq!(read_set(&e), vec!["a", "b", "c", "f"]);
    assert_eq!(read_set(&num(3)), Vec::<String>::new());
}

#[test]
fn read_set_adds_to_what_is_there() {
    let mut set = NameSet::new();
    set.insert("k".to_string());
    expr_dependency(&mut set, &plus(id("a"), id("k")));
    assert_eq!(set.len(), 2);
    assert!(set.contains(&"k".to_string()));
    assert!(set.contains(&"a".to_string()));
}

#[test]
fn action_reads_actions_and_sources() {
    let block = Expr::Action {
        stmt: Stmt::Stmt {
            sgl_stmts: vec![
                SglStmt::Do { act: id("a") },
                SglStmt::Ass { dst: id("d"), src: plus(id("s"), num(1)) },
            ],
        },
    };
    assert_eq!(read_set(&block), vec!["a", "s"]);
}

#[test]
fn traversable_rejects_member_and_odd_parameters() {
    let member = Expr::Member { srv_name: "s".to_string(), member: Box::new(id("x")) };
    assert!(!is_traversable(&member));
    assert!(!is_traversable(&plus(num(1), member.clone())));
    assert!(!is_traversable(&Expr::Lambda { pars: vec![num(1)], body: Box::new(num(2)) }));
    assert!(is_traversable(&lambda(&["x"], plus(id("x"), id("y")))));
    let block = Expr::Action {
        stmt: Stmt::Stmt { sgl_stmts: vec![SglStmt::Ass { dst: member, src: id("x") }] },
    };
    assert!(is_traversable(&block));
}

#[test]
fn def_enters_graph_and_var_does_not() {
    let mut graph: DependencyGraph = NameMap::new();
    decl_dependency(&mut graph, &Decl::VarDecl { name: "x".to_string(), val: num(1) });
    assert_eq!(graph.len(), 0);
    decl_dependency(&mut graph, &def("a", plus(id("x"), num(1))));
    assert_eq!(graph.len(), 1);
    assert_eq!(reads_of(&graph, "a"), Some(vec!["x".to_string()]));
    decl_dependency(&mut graph, &def("a", plus(id("y"), id("z"))));
    assert_eq!(graph.len(), 1);
    assert_eq!(reads_of(&graph, "a"), Some(vec!["y".to_string(), "z".to_string()]));
}

#[test]
fn graph_without_cycle_passes() {
    let mut graph: DependencyGraph = NameMap::new();
    assert_eq!(check_cyclic(&graph), Ok(()));
    decl_dependency(&mut graph, &def("a", plus(id("x"), num(1))));
    decl_dependency(&mut graph, &def("b", plus(id("x"), num(2))));
    decl_dependency(&mut graph, &def("c", plus(id("a"), id("b"))));
    decl_dependency(&mut graph, &def("d", plus(id("c"), id("a"))));
    assert_eq!(check_cyclic(&graph), Ok(()));
}

#[test]
fn self_reference_is_a_cycle() {
    let mut graph: DependencyGraph = NameMap::new();
    decl_dependency(&mut graph, &def("a", plus(id("a"), num(1))));
    assert_eq!(check_cyclic(&graph), Err("cyclic dependency".to_string()));
}

#[test]
fn longer_cycle_is_found() {
    let mut graph: DependencyGraph = NameMap::new();
    decl_dependency(&mut graph, &def("a", id("b")));
    decl_dependency(&mut graph, &def("b", id("c")));
    decl_dependency(&mut graph, &def("z", id("a")));
    assert_eq!(check_cyclic(&graph), Ok(()));
    decl_dependency(&mut graph, &def("c", plus(id("x"), id("a"))));
    assert_eq!(check_cyclic(&graph), Err("cyclic dependency".to_string()));
}

#[test]
fn check_acyclic_looks_at_the_graph_as_it_would_be() {
    let mut graph: DependencyGraph = NameMap::new();
    decl_dependency(&mut graph, &def("a", id("b")));
    let mut reads = NameSet::new();
    reads.insert("a".to_string());
    assert_eq!(
        check_acyclic(&graph, &"b".to_string(), &reads),
        Err("cyclic dependency".to_string())
    );
    assert_eq!(graph.len(), 1);
    assert_eq!(reads_of(&graph, "b"), None);
    assert_eq!(check_acyclic(&graph, &"c".to_string(), &reads), Ok(()));
    assert_eq!(graph.len(), 1);
}

#[test]
fn rejected_admission_leaves_graph_unchanged() {
    let mut graph: DependencyGraph = NameMap::new();
    assert_eq!(admit_decl(&mut graph, &def("a", plus(id("x"), num(1)))), Ok(()));
    assert_eq!(admit_decl(&mut graph, &def("b", id("a"))), Ok(()));
    assert_eq!(admit_decl(&mut graph, &def("a", id("b"))), Err("cyclic dependency".to_string()));
    assert_eq!(graph.len(), 2);
    assert_eq!(reads_of(&graph, "a"), Some(vec!["x".to_string()]));
    assert_eq!(reads_of(&graph, "b"), Some(vec!["a".to_string()]));
    assert_eq!(check_cyclic(&graph), Ok(()));
    assert_eq!(admit_decl(&mut graph, &def("c", id("c"))), Err("cyclic dependency".to_string()));
    assert_eq!(graph.len(), 2);
    let var = Decl::VarDecl { name: "x".to_string(), val: num(1) };
    assert_eq!(admit_decl(&mut graph, &var), Ok(()));
    assert_eq!(graph.len(), 2);
}

#[test]
fn name_set_operations() {
    let mut a = NameSet::new();
    a.insert("p".to_string());
    a.insert("q".to_string());
    a.insert("p".to_string());
    assert_eq!(a.len(), 2);
    let mut b = NameSet::from_names(&vec!["q".to_string(), "r".to_string(), "q".to_string()]);
    assert_eq!(b.len(), 2);
    let only_a = a.difference(&b);
    assert_eq!(only_a.to_vec(), vec!["p".to_string()]);
    b.union_with(&a);
    assert_eq!(b.to_vec(), vec!["q".to_string(), "r".to_string(), "p".to_string()]);
}

#[test]
fn name_map_keeps_one_value_per_name() {
    let mut m: NameMap<Option<meerkat::backend::message::Val>> = NameMap::new();
    assert_eq!(m.get(&"a".to_string()), None);
    m.insert("a".to_string(), None);
    m.insert("b".to_string(), Some(meerkat::backend::message::Val::Int(1)));
    m.insert("a".to_string(), Some(meerkat::backend::message::Val::Bool(true)));
    assert_eq!(m.len(), 2);
    assert_eq!(m.find(&"b".to_string()), Some(1));
    assert!(m.contains_key(&"a".to_string()));
    assert!(!m.contains_key(&"c".to_string()));
    assert_eq!(m.get(&"a".to_string()), Some(&Some(meerkat::backend::message::Val::Bool(true))));
}
