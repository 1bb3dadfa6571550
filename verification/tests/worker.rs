use meerkat::backend::evaluator::Replica;
use meerkat::backend::message::{Message, Outgoing, Recipient, Val};
use meerkat::backend::srvmanager_proc::{ServiceManager, VarOrDef};
use meerkat::backend::worker::Worker;
use meerkat::frontend::meerast::{Binop, Decl, Expr};
use meerkat::names::NameMap;
use std::collections::VecDeque;

fn id(name: &str) -> Expr {
    Expr::IdExpr { ident: name.to_string() }
}

fn num(val: i32) -> Expr {
    Expr::IntConst { val }
}

fn bop(bop: Binop, a: Expr, b: Expr) -> Expr {
    Expr::BopExpr { opd1: Box::new(a), opd2: Box::new(b), bop }
}

fn blank(names: &[&str]) -> Replica {
    let mut r: Replica = NameMap::new();
    for n in names {
        r.insert(n.to_string(), None);
    }
    r
}

fn update(name: &str, value: Option<Val>) -> Message {
    Message::PredUpdatedTo { pred_name: name.to_string(), pred_value: value }
}

fn show(out: &[Outgoing]) -> Vec<String> {
    out.iter().map(|o| format!("{:?}", o)).collect()
}

fn to_worker(name: &str, msg: Message) -> String {
    format!("{:?}", Outgoing { to: Recipient::Worker(name.to_string()), msg })
}

fn to_manager(msg: Message) -> String {
    format!("{:?}", Outgoing { to: Recipient::Manager, msg })
}

const FUEL: usize = 64;

#[test]
fn new_worker_has_no_value_and_no_successor() {
    let w = Worker::new("c", blank(&["a", "b"]), Some(bop(Binop::Add, id("a"), id("b"))));
    assert_eq!(w.name, "c");
    assert_eq!(w.curr_val, None);
    assert!(w.senders_to_succs.is_empty());
    assert_eq!(w.replica.len(), 2);
    assert_eq!(w.def_expr, Some(bop(Binop::Add, id("a"), id("b"))));
}

#[test]
fn subscriber_is_added_and_told_the_current_value() {
    let mut w = Worker::new("x", blank(&[]), None);
    let out = w.handle_message(&Message::AddSenderToSucc { sender: "a".to_string() });
    assert_eq!(w.senders_to_succs, vec!["a".to_string()]);
    assert_eq!(show(&out), vec![to_worker("a", update("x", None))]);
    w.handle_message(&Message::InitVar { var_name: "x".to_string(), var_expr: num(3) });
    let out = w.handle_message(&Message::AddSenderToSucc { sender: "b".to_string() });
    assert_eq!(w.senders_to_succs, vec!["a".to_string(), "b".to_string()]);
    assert_eq!(show(&out), vec![to_worker("b", update("x", Some(Val::Int(3))))]);
}

#[test]
fn init_var_sets_name_and_value_and_broadcasts() {
    let mut w = Worker::new("", blank(&[]), None);
    w.handle_message(&Message::AddSenderToSucc { sender: "a".to_string() });
    w.handle_message(&Message::AddSenderToSucc { sender: "b".to_string() });
    let out = w.handle_message(&Message::InitVar {
        var_name: "x".to_string(),
        var_expr: bop(Binop::Add, num(1), num(2)),
    });
    assert_eq!(w.name, "x");
    assert_eq!(w.curr_val, Some(Val::Int(3)));
    assert_eq!(
        show(&out),
        vec![
            to_worker("a", update("x", Some(Val::Int(3)))),
            to_worker("b", update("x", Some(Val::Int(3)))),
        ]
    );
}

#[test]
fn assign_var_updates_value_and_broadcasts() {
    let mut w = Worker::new("x", blank(&[]), None);
    w.handle_message(&Message::AddSenderToSucc { sender: "a".to_string() });
    w.handle_message(&Message::InitVar { var_name: "x".to_string(), var_expr: num(1) });
    let out = w.handle_message(&Message::AssignVar {
        var_name: "x".to_string(),
        new_val_expr: num(5),
    });
    assert_eq!(w.name, "x");
    assert_eq!(w.curr_val, Some(Val::Int(5)));
    assert_eq!(show(&out), vec![to_worker("a", update("x", Some(Val::Int(5))))]);
}

#[test]
fn assignment_is_announced_under_the_workers_own_name() {
    let mut w = Worker::new("x", blank(&[]), None);
    w.handle_message(&Message::AddSenderToSucc { sender: "a".to_string() });
    let out = w.handle_message(&Message::AssignVar {
        var_name: "other".to_string(),
        new_val_expr: num(9),
    });
    assert_eq!(w.name, "x");
    assert_eq!(show(&out), vec![to_worker("a", update("x", Some(Val::Int(9))))]);
}

#[test]
fn retrieve_reports_to_the_manager() {
    let mut w = Worker::new("x", blank(&[]), None);
    let out = w.handle_message(&Message::RetrieveVal);
    assert_eq!(
        show(&out),
        vec![to_manager(Message::AppriseVal { worker_name: "x".to_string(), worker_value: None })]
    );
    w.handle_message(&Message::InitVar { var_name: "x".to_string(), var_expr: num(8) });
    let out = w.handle_message(&Message::RetrieveVal);
    assert_eq!(
        show(&out),
        vec![to_manager(Message::AppriseVal {
            worker_name: "x".to_string(),
            worker_value: Some(Val::Int(8)),
        })]
    );
    assert_eq!(ServiceManager::apprised_val(&out[0].msg), Some(Val::Int(8)));
    assert_eq!(ServiceManager::apprised_val(&Message::RetrieveVal), None);
}

#[test]
fn def_waits_for_both_predecessors() {
    let mut w = Worker::new("c", blank(&["a", "b"]), Some(bop(Binop::Add, id("a"), id("b"))));
    w.handle_message(&Message::AddSenderToSucc { sender: "d".to_string() });
    let out = w.handle_message(&update("a", Some(Val::Int(2))));
    assert_eq!(w.curr_val, None);
    assert!(out.is_empty());
    let out = w.handle_message(&update("a", Some(Val::Int(3))));
    assert_eq!(w.curr_val, None);
    assert!(out.is_empty());
    let out = w.handle_message(&update("b", None));
    assert_eq!(w.curr_val, None);
    assert!(out.is_empty());
    let out = w.handle_message(&update("b", Some(Val::Int(4))));
    assert_eq!(w.curr_val, Some(Val::Int(7)));
    assert_eq!(show(&out), vec![to_worker("d", update("c", Some(Val::Int(7))))]);
}

#[test]
fn identical_update_fires_again() {
    let mut w = Worker::new("a", blank(&["x"]), Some(bop(Binop::Add, id("x"), num(1))));
    w.handle_message(&Message::AddSenderToSucc { sender: "c".to_string() });
    let first = w.handle_message(&update("x", Some(Val::Int(1))));
    let second = w.handle_message(&update("x", Some(Val::Int(1))));
    assert_eq!(w.curr_val, Some(Val::Int(2)));
    assert_eq!(show(&first), vec![to_worker("c", update("a", Some(Val::Int(2))))]);
    assert_eq!(show(&first), show(&second));
}

#[test]
fn update_without_value_changes_nothing() {
    let mut w = Worker::new("a", blank(&["x"]), Some(id("x")));
    let out = w.handle_message(&update("x", None));
    assert!(out.is_empty());
    assert_eq!(w.curr_val, None);
    assert_eq!(w.replica.get(&"x".to_string()), Some(&None));
}

#[test]
fn faulty_message_is_refused_and_leaves_worker_as_it_was() {
    let mut w = Worker::new("a", blank(&["x"]), Some(bop(Binop::Div, num(1), id("x"))));
    w.handle_message(&Message::AddSenderToSucc { sender: "c".to_string() });
    let r = w.try_handle_message(&update("x", Some(Val::Int(0))), FUEL);
    assert!(r.is_none());
    assert_eq!(w.curr_val, None);
    assert_eq!(w.replica.get(&"x".to_string()), Some(&None));
    let r = w.try_handle_message(
        &Message::AppriseVal { worker_name: "x".to_string(), worker_value: None },
        FUEL,
    );
    assert!(r.is_none());
    let r = w.try_handle_message(
        &Message::InitVar { var_name: "a".to_string(), var_expr: id("nowhere") },
        FUEL,
    );
    assert!(r.is_none());
    assert_eq!(w.name, "a");
    let member = Expr::Member { srv_name: "other".to_string(), member: Box::new(id("y")) };
    let r = w.try_handle_message(
        &Message::AssignVar { var_name: "a".to_string(), new_val_expr: member },
        FUEL,
    );
    assert!(r.is_none());
    assert_eq!(w.curr_val, None);
    let r = w.try_handle_message(&update("x", Some(Val::Int(2))), FUEL);
    assert_eq!(show(&r.unwrap()), vec![to_worker("c", update("a", Some(Val::Int(0))))]);
    assert_eq!(w.curr_val, Some(Val::Int(0)));
}

#[test]
fn filled_replica_without_expression_is_refused() {
    let mut w = Worker::new("x", blank(&[]), None);
    let r = w.try_handle_message(&update("p", Some(Val::Int(1))), FUEL);
    assert!(r.is_none());
    assert_eq!(w.replica.len(), 0);
}

#[test]
fn manager_starts_empty() {
    let m = ServiceManager::new();
    assert!(!m.is_registered("x"));
    assert_eq!(m.dependgraph.len(), 0);
    assert_eq!(m.locks.len(), 0);
    assert_eq!(m.var_or_def_env.len(), 0);
}

#[test]
fn create_worker_registers_and_subscribes() {
    let mut m = ServiceManager::new();
    let (x, out) = m.create_worker("x", VarOrDef::Var, &vec![], None);
    assert!(out.is_empty());
    assert_eq!(x.curr_val, None);
    assert!(m.is_registered("x"));
    let (y, _) = m.create_worker("y", VarOrDef::Var, &vec![], None);
    assert_eq!(y.name, "y");
    let expr = bop(Binop::Add, id("x"), id("y"));
    let (a, out) = m.create_worker(
        "a",
        VarOrDef::Def,
        &vec!["x".to_string(), "y".to_string()],
        Some(expr.clone()),
    );
    assert_eq!(a.name, "a");
    assert_eq!(a.curr_val, None);
    assert_eq!(a.def_expr, Some(expr));
    assert_eq!(a.replica.get(&"x".to_string()), Some(&None));
    assert_eq!(a.replica.get(&"y".to_string()), Some(&None));
    assert_eq!(a.replica.len(), 2);
    assert_eq!(
        show(&out),
        vec![
            to_worker("x", Message::AddSenderToSucc { sender: "a".to_string() }),
            to_worker("y", Message::AddSenderToSucc { sender: "a".to_string() }),
        ]
    );
    assert!(m.is_registered("a"));
    assert_eq!(m.var_or_def_env.get(&"a".to_string()), Some(&VarOrDef::Def));
    assert_eq!(m.var_or_def_env.get(&"x".to_string()), Some(&VarOrDef::Var));
    assert_eq!(m.locks.get(&"a".to_string()), Some(&None));
    assert_eq!(
        m.dependgraph.get(&"a".to_string()).map(|s| s.to_vec()),
        Some(vec!["x".to_string(), "y".to_string()])
    );
}

#[test]
fn manager_admits_declarations_that_close_no_cycle() {
    let mut m = ServiceManager::new();
    let def = |name: &str, val: Expr| Decl::DefDecl { name: name.to_string(), val, is_pub: false };
    assert_eq!(m.admit_decl(&def("a", bop(Binop::Add, id("x"), num(1)))), Ok(()));
    assert_eq!(m.admit_decl(&def("b", id("a"))), Ok(()));
    assert_eq!(m.admit_decl(&def("a", id("b"))), Err("cyclic dependency".to_string()));
    assert_eq!(
        m.dependgraph.get(&"a".to_string()).map(|s| s.to_vec()),
        Some(vec!["x".to_string()])
    );
    assert_eq!(m.dependgraph.len(), 2);
    assert_eq!(m.admit_decl(&Decl::VarDecl { name: "x".to_string(), val: num(1) }), Ok(()));
    assert_eq!(m.dependgraph.len(), 2);
}

#[test]
fn constant_def_has_its_value_from_the_start() {
    let mut m = ServiceManager::new();
    let (k, out) =
        m.create_worker("k", VarOrDef::Def, &vec![], Some(bop(Binop::Mul, num(6), num(7))));
    assert!(out.is_empty());
    assert_eq!(k.curr_val, Some(Val::Int(42)));
    let (v, _) = m.create_worker("v", VarOrDef::Var, &vec![], None);
    assert_eq!(v.curr_val, None);
}

#[test]
fn manager_messages_are_addressed_to_the_worker() {
    let mut m = ServiceManager::new();
    m.create_worker("x", VarOrDef::Var, &vec![], None);
    assert_eq!(
        format!("{:?}", m.init_var_worker("x", num(1))),
        to_worker("x", Message::InitVar { var_name: "x".to_string(), var_expr: num(1) })
    );
    assert_eq!(
        format!("{:?}", m.assign_var("x", num(5))),
        to_worker("x", Message::AssignVar { var_name: "x".to_string(), new_val_expr: num(5) })
    );
    assert_eq!(format!("{:?}", m.retrieve_val("x")), to_worker("x", Message::RetrieveVal));
}

struct Network {
    manager: ServiceManager,
    workers: Vec<Worker>,
    in_flight: VecDeque<Outgoing>,
    replies: Vec<Message>,
}

fn declare(net: &mut Network, name: &str, kind: VarOrDef, reads: &[&str], expr: Option<Expr>) {
    let reads: Vec<String> = reads.iter().map(|r| r.to_string()).collect();
    let (worker, out) = net.manager.create_worker(name, kind, &reads, expr);
    net.workers.push(worker);
    net.in_flight.extend(out);
    settle(net);
}

fn settle(net: &mut Network) {
    while let Some(Outgoing { to, msg }) = net.in_flight.pop_front() {
        match to {
            Recipient::Manager => net.replies.push(msg),
            Recipient::Worker(name) => {
                let worker = net.workers.iter_mut().find(|w| w.name == name).unwrap();
                let out = worker.try_handle_message(&msg, FUEL).unwrap();
                net.in_flight.extend(out);
            }
        }
    }
}

fn retrieve(net: &mut Network, name: &str) -> Option<Val> {
    let ask = net.manager.retrieve_val(name);
    net.in_flight.push_back(ask);
    settle(net);
    let reply = net.replies.pop().unwrap();
    ServiceManager::apprised_val(&reply)
}

fn diamond() -> Network {
    let mut net = Network {
        manager: ServiceManager::new(),
        workers: Vec::new(),
        in_flight: VecDeque::new(),
        replies: Vec::new(),
    };
    declare(&mut net, "x", VarOrDef::Var, &[], None);
    declare(&mut net, "a", VarOrDef::Def, &["x"], Some(bop(Binop::Add, id("x"), num(1))));
    declare(&mut net, "b", VarOrDef::Def, &["x"], Some(bop(Binop::Mul, id("x"), num(2))));
    declare(&mut net, "c", VarOrDef::Def, &["a", "b"], Some(bop(Binop::Add, id("a"), id("b"))));
    net
}

#[test]
fn nothing_has_a_value_before_the_var_is_initialised() {
    let mut net = diamond();
    assert_eq!(retrieve(&mut net, "x"), None);
    assert_eq!(retrieve(&mut net, "a"), None);
    assert_eq!(retrieve(&mut net, "b"), None);
    assert_eq!(retrieve(&mut net, "c"), None);
}

#[test]
fn values_propagate_end_to_end() {
    let mut net = diamond();
    let init = net.manager.init_var_worker("x", num(1));
    net.in_flight.push_back(init);
    settle(&mut net);
    assert_eq!(retrieve(&mut net, "x"), Some(Val::Int(1)));
    assert_eq!(retrieve(&mut net, "a"), Some(Val::Int(2)));
    assert_eq!(retrieve(&mut net, "b"), Some(Val::Int(2)));
    assert_eq!(retrieve(&mut net, "c"), Some(Val::Int(4)));
    let assign = net.manager.assign_var("x", num(5));
    net.in_flight.push_back(assign);
    settle(&mut net);
    assert_eq!(retrieve(&mut net, "x"), Some(Val::Int(5)));
    assert_eq!(retrieve(&mut net, "a"), Some(Val::Int(6)));
    assert_eq!(retrieve(&mut net, "b"), Some(Val::Int(10)));
    assert_eq!(retrieve(&mut net, "c"), Some(Val::Int(16)));
}
