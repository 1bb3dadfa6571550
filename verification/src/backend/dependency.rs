//! The read-set of an expression, and the dependency graph of the declared
//! names.
use crate::backend::graph::{
    cyclic, is_cycle, lemma_acyclic, lemma_empty_acyclic, link, settled, sound, visit,
    DependencyGraph, Graph, Mark,
};
use crate::frontend::meerast::{
    steps_view, terms_of, Decl, Expr, SglStmt, Step, Stmt, Term,
};
use crate::names::{names_of, slot, NameMap, NameSet};
use vstd::prelude::*;

verus! {

/// The names that a parameter list binds.
pub open spec fn par_names(pars: Seq<Term>) -> Set<Seq<char>> {
    Set::new(
        |n: Seq<char>| exists|i: int| 0 <= i < pars.len() && pars[i] == (Term::Id { ident: n }),
    )
}

/// Every parameter is an identifier.
pub open spec fn all_ids(pars: Seq<Term>) -> bool {
    forall|i: int| 0 <= i < pars.len() ==> pars[i] is Id
}

/// The expression that a step reads: the action of a `Do`, the source of an
/// assignment.
pub open spec fn step_read(s: Step) -> Term {
    match s {
        Step::Do { act } => act,
        Step::Ass { dst, src } => src,
    }
}

/// The term can be walked as a whole: it holds no member access, and every
/// parameter of a lambda in it is an identifier. The destination of an
/// assignment is never walked, and so is not constrained.
pub open spec fn traversable(t: Term) -> bool
    decreases t,
{
    match t {
        Term::Id { .. } => true,
        Term::Int { .. } => true,
        Term::Bool { .. } => true,
        Term::Action { stmts } => forall|i: int|
            0 <= i < stmts.len() ==> traversable(step_read(#[trigger] stmts[i])),
        Term::Member { .. } => false,
        Term::Apply { fun, args } => traversable(*fun) && forall|i: int|
            0 <= i < args.len() ==> traversable(#[trigger] args[i]),
        Term::Bop { opd1, opd2, .. } => traversable(*opd1) && traversable(*opd2),
        Term::Uop { opd, .. } => traversable(*opd),
        Term::If { cond, then, elze } => traversable(*cond) && traversable(*then) && traversable(
            *elze,
        ),
        Term::Lambda { pars, body } => all_ids(pars) && traversable(*body),
    }
}

/// The names that a term reads: every identifier that occurs in it outside
/// the scope of a lambda parameter of the same name.
pub open spec fn free_identifiers(t: Term) -> Set<Seq<char>>
    decreases t,
{
    match t {
        Term::Id { ident } => set![ident],
        Term::Int { .. } => Set::empty(),
        Term::Bool { .. } => Set::empty(),
        Term::Action { stmts } => free_identifiers_of_steps(stmts),
        Term::Member { .. } => Set::empty(),
        Term::Apply { fun, args } => free_identifiers(*fun).union(free_identifiers_of_all(args)),
        Term::Bop { opd1, opd2, .. } => free_identifiers(*opd1).union(free_identifiers(*opd2)),
        Term::Uop { opd, .. } => free_identifiers(*opd),
        Term::If { cond, then, elze } => free_identifiers(*cond).union(
            free_identifiers(*then),
        ).union(free_identifiers(*elze)),
        Term::Lambda { pars, body } => free_identifiers(*body).difference(par_names(pars)),
    }
}

/// The names that any of the terms reads.
pub open spec fn free_identifiers_of_all(ts: Seq<Term>) -> Set<Seq<char>>
    decreases ts,
{
    if ts.len() == 0 {
        Set::empty()
    } else {
        free_identifiers_of_all(ts.drop_last()).union(free_identifiers(ts.last()))
    }
}

/// The names that any of the steps reads.
pub open spec fn free_identifiers_of_steps(ss: Seq<Step>) -> Set<Seq<char>>
    decreases ss,
{
    if ss.len() == 0 {
        Set::empty()
    } else {
        free_identifiers_of_steps(ss.drop_last()).union(free_identifiers(step_read(ss.last())))
    }
}

/// Whether every expression of the list is an identifier.
pub fn are_all_ids(pars: &Vec<Expr>) -> (r: bool)
    ensures
        r == all_ids(terms_of(pars@)),
{
    let mut i: usize = 0;
    while i < pars.len()
        invariant
            i <= pars.len(),
            forall|j: int| 0 <= j < i ==> terms_of(pars@)[j] is Id,
        decreases pars.len() - i,
    {
        match &pars[i] {
            Expr::IdExpr { .. } => {},
            _ => {
                assert(!(terms_of(pars@)[i as int] is Id));
                return false;
            },
        }
        i += 1;
    }
    true
}

/// Whether the expression can be walked as a whole.
pub fn is_traversable(expr: &Expr) -> (r: bool)
    ensures
        r == traversable(expr@),
    decreases expr,
{
    match expr {
        Expr::IdExpr { .. } => true,
        Expr::IntConst { .. } => true,
        Expr::BoolConst { .. } => true,
        Expr::Action { stmt } => match stmt {
            Stmt::Stmt { sgl_stmts } => {
                let r = are_steps_traversable(sgl_stmts);
                proof {
                    let stmts = steps_view(sgl_stmts@);
                    assert(stmt@ == stmts);
                    if r {
                        assert forall|i: int| 0 <= i < stmts.len() implies traversable(
                            step_read(#[trigger] stmts[i]),
                        ) by {
                            assert(traversable(step_read(sgl_stmts@[i]@)));
                        }
                    } else {
                        let i = choose|i: int|
                            0 <= i < sgl_stmts@.len() && !traversable(
                                step_read(#[trigger] sgl_stmts@[i]@),
                            );
                        assert(!traversable(step_read(stmts[i])));
                    }
                }
                r
            },
        },
        Expr::Member { .. } => false,
        Expr::Apply { fun, args } => {
            let r1 = is_traversable(fun);
            let r2 = are_all_traversable(args);
            proof {
                let t = Term::Apply { fun: Box::new(fun@), args: terms_of(args@) };
                assert(expr@ == t);
                if traversable(t) {
                    assert forall|i: int| 0 <= i < args@.len() implies traversable(
                        #[trigger] terms_of(args@)[i],
                    ) by {
                        assert(traversable(t->args[i]));
                    }
                }
            }
            r1 && r2
        },
        Expr::BopExpr { opd1, opd2, .. } => is_traversable(opd1) && is_traversable(opd2),
        Expr::UopExpr { opd, .. } => is_traversable(opd),
        Expr::IfExpr { cond, then, elze } => is_traversable(cond) && is_traversable(then)
            && is_traversable(elze),
        Expr::Lambda { pars, body } => are_all_ids(pars) && is_traversable(body),
    }
}

/// Whether every expression of the list can be walked as a whole.
pub fn are_all_traversable(es: &Vec<Expr>) -> (r: bool)
    ensures
        r == (forall|i: int| 0 <= i < es@.len() ==> traversable(#[trigger] terms_of(es@)[i])),
    decreases es,
{
    let mut i: usize = 0;
    while i < es.len()
        invariant
            i <= es.len(),
            forall|j: int| 0 <= j < i ==> traversable(#[trigger] terms_of(es@)[j]),
        decreases es.len() - i,
    {
        if !is_traversable(&es[i]) {
            assert(!traversable(terms_of(es@)[i as int]));
            return false;
        }
        i += 1;
    }
    true
}

/// Whether what every statement of the list reads can be walked as a whole.
pub fn are_steps_traversable(ss: &Vec<SglStmt>) -> (r: bool)
    ensures
        r == (forall|i: int| 0 <= i < ss@.len() ==> traversable(step_read(#[trigger] ss@[i]@))),
    decreases ss,
{
    let mut i: usize = 0;
    while i < ss.len()
        invariant
            i <= ss.len(),
            forall|j: int| 0 <= j < i ==> traversable(step_read(#[trigger] ss@[j]@)),
        decreases ss.len() - i,
    {
        let ok = match &ss[i] {
            SglStmt::Do { act } => is_traversable(act),
            SglStmt::Ass { dst, src } => is_traversable(src),
        };
        if !ok {
            assert(!traversable(step_read(ss@[i as int]@)));
            return false;
        }
        i += 1;
    }
    true
}

/// The set of the names that the parameter list binds.
pub fn par_name_set(pars: &Vec<Expr>) -> (r: NameSet)
    requires
        all_ids(terms_of(pars@)),
    ensures
        r.wf(),
        r@ == par_names(terms_of(pars@)),
{
    let ghost ts = terms_of(pars@);
    let mut out = NameSet::new();
    let mut i: usize = 0;
    while i < pars.len()
        invariant
            i <= pars.len(),
            ts == terms_of(pars@),
            all_ids(ts),
            out.wf(),
            forall|n: Seq<char>|
                out@.contains(n) <==> exists|j: int| 0 <= j < i && ts[j] == (Term::Id { ident: n }),
        decreases pars.len() - i,
    {
        let ghost before = out@;
        match &pars[i] {
            Expr::IdExpr { ident } => {
                out.insert(ident.clone());
                proof {
                    assert(ts[i as int] == (Term::Id { ident: ident@ }));
                    assert forall|n: Seq<char>|
                        out@.contains(n) <==> exists|j: int|
                            0 <= j < i + 1 && ts[j] == (Term::Id { ident: n }) by {
                        if before.contains(n) {
                            let j = choose|j: int| 0 <= j < i && ts[j] == (Term::Id { ident: n });
                            assert(0 <= j < i + 1 && ts[j] == (Term::Id { ident: n }));
                        }
                        if exists|j: int| 0 <= j < i + 1 && ts[j] == (Term::Id { ident: n }) {
                            let j = choose|j: int|
                                0 <= j < i + 1 && ts[j] == (Term::Id { ident: n });
                            if j < i {
                                assert(before.contains(n));
                            }
                        }
                    }
                }
            },
            _ => {
                assert(ts[i as int] is Id);
            },
        }
        i += 1;
    }
    assert(out@ =~= par_names(ts));
    out
}

/// Adds to `dependency_set` the names that `expr` reads: every identifier
/// that occurs in it outside the scope of a lambda parameter of the same
/// name.
pub fn expr_dependency(dependency_set: &mut NameSet, expr: &Expr)
    requires
        old(dependency_set).wf(),
        traversable(expr@),
    ensures
        final(dependency_set).wf(),
        final(dependency_set)@ == old(dependency_set)@.union(free_identifiers(expr@)),
    decreases expr,
{
    match expr {
        Expr::IdExpr { ident } => {
            dependency_set.insert(ident.clone());
            assert(dependency_set@ =~= old(dependency_set)@.union(free_identifiers(expr@)));
        },
        Expr::IntConst { .. } => {
            assert(dependency_set@ =~= old(dependency_set)@.union(free_identifiers(expr@)));
        },
        Expr::BoolConst { .. } => {
            assert(dependency_set@ =~= old(dependency_set)@.union(free_identifiers(expr@)));
        },
        Expr::Action { stmt } => match stmt {
            Stmt::Stmt { sgl_stmts } => {
                proof {
                    let stmts = stmt@;
                    assert forall|i: int| 0 <= i < sgl_stmts@.len() implies traversable(
                        step_read(#[trigger] sgl_stmts@[i]@),
                    ) by {
                        assert(stmts[i] == sgl_stmts@[i]@);
                        assert(traversable(step_read(stmts[i])));
                    }
                }
                stmts_dependency(dependency_set, sgl_stmts);
                proof {
                    assert(stmt@ =~= steps_view(sgl_stmts@));
                }
            },
        },
        Expr::Member { .. } => {},
        Expr::Apply { fun, args } => {
            proof {
                let t = expr@;
                assert(t == Term::Apply { fun: Box::new(fun@), args: terms_of(args@) });
                assert forall|i: int| 0 <= i < args@.len() implies traversable(
                    #[trigger] terms_of(args@)[i],
                ) by {
                    assert(traversable(t->args[i]));
                }
            }
            expr_dependency(dependency_set, fun);
            exprs_dependency(dependency_set, args);
            assert(dependency_set@ =~= old(dependency_set)@.union(free_identifiers(expr@)));
        },
        Expr::BopExpr { opd1, opd2, .. } => {
            expr_dependency(dependency_set, opd1);
            expr_dependency(dependency_set, opd2);
            assert(dependency_set@ =~= old(dependency_set)@.union(free_identifiers(expr@)));
        },
        Expr::UopExpr { opd, .. } => {
            expr_dependency(dependency_set, opd);
        },
        Expr::IfExpr { cond, then, elze } => {
            expr_dependency(dependency_set, cond);
            expr_dependency(dependency_set, then);
            expr_dependency(dependency_set, elze);
            assert(dependency_set@ =~= old(dependency_set)@.union(free_identifiers(expr@)));
        },
        Expr::Lambda { pars, body } => {
            let mut inner = NameSet::new();
            expr_dependency(&mut inner, body);
            let bound = par_name_set(pars);
            let free = inner.difference(&bound);
            dependency_set.union_with(&free);
            assert(inner@ =~= free_identifiers(body@));
        },
    }
}

/// Adds to `dependency_set` the names that any expression of the list reads.
pub fn exprs_dependency(dependency_set: &mut NameSet, es: &Vec<Expr>)
    requires
        old(dependency_set).wf(),
        forall|i: int| 0 <= i < es@.len() ==> traversable(#[trigger] terms_of(es@)[i]),
    ensures
        final(dependency_set).wf(),
        final(dependency_set)@ == old(dependency_set)@.union(
            free_identifiers_of_all(terms_of(es@)),
        ),
    decreases es,
{
    let ghost ts = terms_of(es@);
    let mut i: usize = 0;
    assert(dependency_set@ =~= old(dependency_set)@.union(free_identifiers_of_all(ts.take(0))));
    while i < es.len()
        invariant
            i <= es.len(),
            ts == terms_of(es@),
            dependency_set.wf(),
            forall|j: int| 0 <= j < es@.len() ==> traversable(#[trigger] ts[j]),
            dependency_set@ == old(dependency_set)@.union(
                free_identifiers_of_all(ts.take(i as int)),
            ),
        decreases es.len() - i,
    {
        assert(traversable(ts[i as int]));
        expr_dependency(dependency_set, &es[i]);
        proof {
            assert(ts.take(i + 1).drop_last() =~= ts.take(i as int));
            assert(ts.take(i + 1).last() == es@[i as int]@);
            assert(dependency_set@ =~= old(dependency_set)@.union(
                free_identifiers_of_all(ts.take(i + 1)),
            ));
        }
        i += 1;
    }
    assert(ts.take(es@.len() as int) =~= ts);
}

/// Adds to `dependency_set` the names that any statement of the list reads.
pub fn stmts_dependency(dependency_set: &mut NameSet, ss: &Vec<SglStmt>)
    requires
        old(dependency_set).wf(),
        forall|i: int| 0 <= i < ss@.len() ==> traversable(step_read(#[trigger] ss@[i]@)),
    ensures
        final(dependency_set).wf(),
        final(dependency_set)@ == old(dependency_set)@.union(
            free_identifiers_of_steps(steps_view(ss@)),
        ),
    decreases ss,
{
    let ghost steps = steps_view(ss@);
    let mut i: usize = 0;
    assert(dependency_set@ =~= old(dependency_set)@.union(
        free_identifiers_of_steps(steps.take(0)),
    ));
    while i < ss.len()
        invariant
            i <= ss.len(),
            steps == steps_view(ss@),
            dependency_set.wf(),
            forall|j: int| 0 <= j < ss@.len() ==> traversable(step_read(#[trigger] ss@[j]@)),
            dependency_set@ == old(dependency_set)@.union(
                free_identifiers_of_steps(steps.take(i as int)),
            ),
        decreases ss.len() - i,
    {
        assert(traversable(step_read(ss@[i as int]@)));
        match &ss[i] {
            SglStmt::Do { act } => {
                expr_dependency(dependency_set, act);
            },
            SglStmt::Ass { dst, src } => {
                expr_dependency(dependency_set, src);
            },
        }
        proof {
            assert(steps.take(i + 1).drop_last() =~= steps.take(i as int));
            assert(steps.take(i + 1).last() == ss@[i as int]@);
            assert(dependency_set@ =~= old(dependency_set)@.union(
                free_identifiers_of_steps(steps.take(i + 1)),
            ));
        }
        i += 1;
    }
    assert(steps.take(ss@.len() as int) =~= steps);
}

/// The graph once `decl` is entered: a `Def` maps its name to the names that
/// its expression reads, a `Var` leaves the graph as it is.
pub open spec fn with_decl(g: Graph, decl: Decl) -> Graph {
    match decl {
        Decl::DefDecl { name, val, .. } => g.insert(name@, free_identifiers(val@)),
        _ => g,
    }
}

/// Enters `decl` into the graph: a `Def` maps its name to the names that its
/// expression reads, in place of what the name read before; a `Var` reads
/// nothing and leaves the graph as it is.
pub fn decl_dependency(dependency_graph: &mut DependencyGraph, decl: &Decl)
    requires
        old(dependency_graph).wf(),
        !(decl is Import),
        decl matches Decl::DefDecl { val, .. } ==> traversable(val@),
    ensures
        final(dependency_graph).wf(),
        final(dependency_graph)@ == with_decl(old(dependency_graph)@, *decl),
{
    match decl {
        Decl::Import { .. } => {},
        Decl::VarDecl { .. } => {},
        Decl::DefDecl { name, val, .. } => {
            let mut dependency_set = NameSet::new();
            expr_dependency(&mut dependency_set, val);
            assert(dependency_set@ =~= free_identifiers(val@));
            dependency_graph.insert(name.clone(), dependency_set);
        },
    }
}

/// Looks for a cycle in the graph: a name that reads itself through one or
/// more steps. Each key is searched depth first, with the keys on the
/// current path marked; a read that leads back to a marked key is a cycle.
pub fn check_cyclic(dependency_graph: &DependencyGraph) -> (r: Result<(), String>)
    requires
        dependency_graph.wf(),
    ensures
        r is Err <==> cyclic(dependency_graph@),
        r matches Err(msg) ==> msg@ == "cyclic dependency"@,
{
    let ghost g = dependency_graph@;
    let ghost keys = names_of(dependency_graph.keys@);
    let n = dependency_graph.keys.len();
    let mut marks: Vec<Mark> = Vec::new();
    while marks.len() < n
        invariant
            marks@.len() <= n,
            forall|j: int| 0 <= j < marks@.len() ==> marks@[j] == Mark::Fresh,
        decreases n - marks@.len(),
    {
        marks.push(Mark::Fresh);
    }
    proof {
        let d = settled(keys, marks@);
        assert forall|m: Seq<char>| d.contains(m) implies !g.contains_key(m) by {
            if keys.contains(m) {
                let j = slot(keys, m);
            }
        }
        assert forall|p: Seq<Seq<char>>| #[trigger] is_cycle(g, p) implies !d.contains(p[0]) by {
            assert(link(g, p, 0));
        }
    }
    let mut i: usize = 0;
    while i < n
        invariant
            i <= n,
            n == dependency_graph.keys@.len(),
            g == dependency_graph@,
            keys == names_of(dependency_graph.keys@),
            sound(dependency_graph, marks@),
            forall|j: int| 0 <= j < n ==> marks@[j] != Mark::OnPath,
            forall|j: int| 0 <= j < i ==> marks@[j] == Mark::Done,
        decreases n - i,
    {
        if marks[i] == Mark::Fresh {
            let ghost path = seq![dependency_graph.keys@[i as int]@];
            proof {
                assert(path.drop_last() =~= Seq::<Seq<char>>::empty());
            }
            let ghost before = marks@;
            if !visit(dependency_graph, i, &mut marks, Ghost(path)) {
                return Err("cyclic dependency".to_owned());
            }
            proof {
                assert forall|j: int| 0 <= j < n implies marks@[j] != Mark::OnPath by {
                    assert(!path.drop_last().contains(keys[j]));
                }
            }
        }
        i += 1;
    }
    proof {
        let d = settled(keys, marks@);
        assert forall|a: Seq<char>| g.contains_key(a) implies d.contains(a) by {
            let j = slot(keys, a);
            assert(marks@[j] == Mark::Done);
        }
        lemma_acyclic(g, d);
    }
    Ok(())
}

/// Copies a graph.
pub fn clone_graph(graph: &DependencyGraph) -> (r: DependencyGraph)
    requires
        graph.wf(),
    ensures
        r.wf(),
        r@ == graph@,
        names_of(r.keys@) == names_of(graph.keys@),
{
    let mut keys: Vec<String> = Vec::new();
    let mut vals: Vec<NameSet> = Vec::new();
    let mut i: usize = 0;
    while i < graph.keys.len()
        invariant
            i <= graph.keys@.len(),
            graph.wf(),
            keys@.len() == i,
            vals@.len() == i,
            forall|j: int| 0 <= j < i ==> keys@[j]@ == graph.keys@[j]@,
            forall|j: int| 0 <= j < i ==> vals@[j]@ == graph.vals@[j]@,
        decreases graph.keys@.len() - i,
    {
        keys.push(graph.keys[i].clone());
        vals.push(graph.vals[i].clone());
        i += 1;
    }
    let r = NameMap { keys, vals };
    assert(names_of(r.keys@) =~= names_of(graph.keys@));
    assert(r@ =~= graph@);
    r
}

/// Whether the graph would still be free of cycles once `new_name` read the
/// names of `read_set`. The graph itself is left as it is.
pub fn check_acyclic(graph: &DependencyGraph, new_name: &String, read_set: &NameSet) -> (r:
    Result<(), String>)
    requires
        graph.wf(),
    ensures
        r is Err <==> cyclic(graph@.insert(new_name@, read_set@)),
        r matches Err(msg) ==> msg@ == "cyclic dependency"@,
{
    let mut would_be = clone_graph(graph);
    would_be.insert(new_name.clone(), read_set.clone());
    check_cyclic(&would_be)
}

/// The graph after `decl` has asked for admission: with the declaration
/// entered, unless that closes a cycle; then as it was.
pub open spec fn admitted(g: Graph, decl: Decl) -> Graph {
    if cyclic(with_decl(g, decl)) {
        g
    } else {
        with_decl(g, decl)
    }
}

/// The graph that a sequence of declarations leaves, each asking for
/// admission in turn, starting from the graph without entries.
pub open spec fn realized(decls: Seq<Decl>) -> Graph
    decreases decls.len(),
{
    if decls.len() == 0 {
        Map::empty()
    } else {
        admitted(realized(decls.drop_last()), decls.last())
    }
}

/// Admits `decl` into the graph, all or nothing: the declaration is entered
/// if the graph stays free of cycles with it, and else the graph is left as
/// it was and the cycle is reported.
pub fn admit_decl(dependency_graph: &mut DependencyGraph, decl: &Decl) -> (r: Result<(), String>)
    requires
        old(dependency_graph).wf(),
        !(decl is Import),
        decl matches Decl::DefDecl { val, .. } ==> traversable(val@),
    ensures
        final(dependency_graph).wf(),
        r is Err <==> cyclic(with_decl(old(dependency_graph)@, *decl)),
        r matches Err(msg) ==> msg@ == "cyclic dependency"@,
        r is Err ==> *final(dependency_graph) == *old(dependency_graph),
        final(dependency_graph)@ == admitted(old(dependency_graph)@, *decl),
{
    let mut would_be = clone_graph(dependency_graph);
    decl_dependency(&mut would_be, decl);
    match check_cyclic(&would_be) {
        Ok(()) => {
            *dependency_graph = would_be;
            Ok(())
        },
        Err(msg) => Err(msg),
    }
}

/// Whatever declarations ask for admission, in whatever order, the graph
/// that they leave has no cycle.
pub proof fn lemma_realized_is_acyclic(decls: Seq<Decl>)
    ensures
        !cyclic(realized(decls)),
    decreases decls.len(),
{
    if decls.len() == 0 {
        lemma_empty_acyclic();
    } else {
        lemma_realized_is_acyclic(decls.drop_last());
    }
}

/// Admission keeps a graph free of cycles, and changes it only when it
/// enters the declaration.
pub proof fn lemma_admission(g: Graph, decl: Decl)
    requires
        !cyclic(g),
    ensures
        !cyclic(admitted(g, decl)),
        admitted(g, decl) == g || admitted(g, decl) == with_decl(g, decl),
        cyclic(with_decl(g, decl)) ==> admitted(g, decl) == g,
{
}

} // verus!
