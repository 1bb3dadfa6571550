//! Abstract syntax trees, and the mathematical terms that stand for them in
//! contracts.
use vstd::prelude::*;

verus! {

#[derive(Debug, Clone, Copy, PartialEq, Eq)]
pub enum Uop {
    Neg,
    Not,
}

#[derive(Debug, Clone, Copy, PartialEq, Eq)]
pub enum Binop {
    Add,
    Sub,
    Mul,
    Div,
    Eq,
    Lt,
    Gt,
    And,
    Or,
}

/// One line of input to the interactive front end.
#[derive(Debug, Clone)]
pub enum ReplInput {
    Service(Service),
    Do(SglStmt),
    Decl(Decl),
    Update(Decl),
    Open(String),
    Close,
    Exit,
}

#[derive(Debug, Clone)]
pub enum Program {
    Prog { services: Vec<Service> },
}

#[derive(Debug, Clone)]
pub enum Service {
    Srv { name: String, decls: Vec<Decl> },
}

/// A top-level declaration: an import, a `Var` with its initial value, or a
/// `Def` with its defining expression.
#[derive(Debug, Clone)]
pub enum Decl {
    Import { srv_name: String },
    VarDecl { name: String, val: Expr },
    DefDecl { name: String, val: Expr, is_pub: bool },
}

#[derive(Debug, PartialEq, Eq)]
pub enum Stmt {
    Stmt { sgl_stmts: Vec<SglStmt> },
}

#[derive(Debug, PartialEq, Eq)]
pub enum SglStmt {
    Do { act: Expr },
    Ass { dst: Expr, src: Expr },
}

#[derive(Debug, PartialEq, Eq)]
pub enum Expr {
    IdExpr { ident: String },
    IntConst { val: i32 },
    BoolConst { val: bool },
    Action { stmt: Stmt },
    Member { srv_name: String, member: Box<Expr> },
    Apply { fun: Box<Expr>, args: Vec<Expr> },
    BopExpr { opd1: Box<Expr>, opd2: Box<Expr>, bop: Binop },
    UopExpr { opd: Box<Expr>, uop: Uop },
    IfExpr { cond: Box<Expr>, then: Box<Expr>, elze: Box<Expr> },
    Lambda { pars: Vec<Expr>, body: Box<Expr> },
}

/// The term that an `Expr` denotes: names are sequences of characters,
/// integers are unbounded, and lists are sequences.
pub ghost enum Term {
    Id { ident: Seq<char> },
    Int { val: int },
    Bool { val: bool },
    Action { stmts: Seq<Step> },
    Member { srv_name: Seq<char>, member: Box<Term> },
    Apply { fun: Box<Term>, args: Seq<Term> },
    Bop { opd1: Box<Term>, opd2: Box<Term>, bop: Binop },
    Uop { opd: Box<Term>, uop: Uop },
    If { cond: Box<Term>, then: Box<Term>, elze: Box<Term> },
    Lambda { pars: Seq<Term>, body: Box<Term> },
}

/// The term of one statement of an action block.
pub ghost enum Step {
    Do { act: Term },
    Ass { dst: Term, src: Term },
}

/// The term of an expression.
pub open spec fn term_of(e: Expr) -> Term
    decreases e,
{
    match e {
        Expr::IdExpr { ident } => Term::Id { ident: ident@ },
        Expr::IntConst { val } => Term::Int { val: val as int },
        Expr::BoolConst { val } => Term::Bool { val },
        Expr::Action { stmt } => Term::Action { stmts: steps_of(stmt) },
        Expr::Member { srv_name, member } => Term::Member {
            srv_name: srv_name@,
            member: Box::new(term_of(*member)),
        },
        Expr::Apply { fun, args } => Term::Apply {
            fun: Box::new(term_of(*fun)),
            args: terms_of(args@),
        },
        Expr::BopExpr { opd1, opd2, bop } => Term::Bop {
            opd1: Box::new(term_of(*opd1)),
            opd2: Box::new(term_of(*opd2)),
            bop,
        },
        Expr::UopExpr { opd, uop } => Term::Uop { opd: Box::new(term_of(*opd)), uop },
        Expr::IfExpr { cond, then, elze } => Term::If {
            cond: Box::new(term_of(*cond)),
            then: Box::new(term_of(*then)),
            elze: Box::new(term_of(*elze)),
        },
        Expr::Lambda { pars, body } => Term::Lambda {
            pars: terms_of(pars@),
            body: Box::new(term_of(*body)),
        },
    }
}

/// The terms of a list of expressions, in order.
pub open spec fn terms_of(es: Seq<Expr>) -> Seq<Term>
    decreases es,
{
    Seq::new(
        es.len(),
        |i: int|
            if 0 <= i < es.len() {
                term_of(es[i])
            } else {
                Term::Int { val: 0 }
            },
    )
}

/// The steps of a statement block, in order.
pub open spec fn steps_of(s: Stmt) -> Seq<Step>
    decreases s,
{
    match s {
        Stmt::Stmt { sgl_stmts } => steps_view(sgl_stmts@),
    }
}

/// The steps of a list of statements, in order.
pub open spec fn steps_view(ss: Seq<SglStmt>) -> Seq<Step>
    decreases ss,
{
    Seq::new(
        ss.len(),
        |i: int|
            if 0 <= i < ss.len() {
                step_of(ss[i])
            } else {
                Step::Do { act: Term::Int { val: 0 } }
            },
    )
}

/// The step of a single statement.
pub open spec fn step_of(s: SglStmt) -> Step
    decreases s,
{
    match s {
        SglStmt::Do { act } => Step::Do { act: term_of(act) },
        SglStmt::Ass { dst, src } => Step::Ass { dst: term_of(dst), src: term_of(src) },
    }
}

impl View for Expr {
    type V = Term;

    open spec fn view(&self) -> Term {
        term_of(*self)
    }
}

impl View for Stmt {
    type V = Seq<Step>;

    open spec fn view(&self) -> Seq<Step> {
        steps_of(*self)
    }
}

impl View for SglStmt {
    type V = Step;

    open spec fn view(&self) -> Step {
        step_of(*self)
    }
}

/// Copies an expression.
pub fn clone_expr(e: &Expr) -> (r: Expr)
    ensures
        r@ == e@,
    decreases e,
{
    match e {
        Expr::IdExpr { ident } => Expr::IdExpr { ident: ident.clone() },
        Expr::IntConst { val } => Expr::IntConst { val: *val },
        Expr::BoolConst { val } => Expr::BoolConst { val: *val },
        Expr::Action { stmt } => Expr::Action { stmt: clone_stmt(stmt) },
        Expr::Member { srv_name, member } => Expr::Member {
            srv_name: srv_name.clone(),
            member: Box::new(clone_expr(member)),
        },
        Expr::Apply { fun, args } => Expr::Apply {
            fun: Box::new(clone_expr(fun)),
            args: clone_exprs(args),
        },
        Expr::BopExpr { opd1, opd2, bop } => Expr::BopExpr {
            opd1: Box::new(clone_expr(opd1)),
            opd2: Box::new(clone_expr(opd2)),
            bop: *bop,
        },
        Expr::UopExpr { opd, uop } => Expr::UopExpr { opd: Box::new(clone_expr(opd)), uop: *uop },
        Expr::IfExpr { cond, then, elze } => Expr::IfExpr {
            cond: Box::new(clone_expr(cond)),
            then: Box::new(clone_expr(then)),
            elze: Box::new(clone_expr(elze)),
        },
        Expr::Lambda { pars, body } => Expr::Lambda {
            pars: clone_exprs(pars),
            body: Box::new(clone_expr(body)),
        },
    }
}

/// Copies a list of expressions.
pub fn clone_exprs(es: &Vec<Expr>) -> (r: Vec<Expr>)
    ensures
        terms_of(r@) == terms_of(es@),
    decreases es,
{
    let mut out: Vec<Expr> = Vec::new();
    let mut i: usize = 0;
    while i < es.len()
        invariant
            i <= es.len(),
            out@.len() == i,
            forall|j: int| 0 <= j < i ==> out@[j]@ == es@[j]@,
        decreases es.len() - i,
    {
        out.push(clone_expr(&es[i]));
        i += 1;
    }
    assert(terms_of(out@) =~= terms_of(es@));
    out
}

/// Copies a statement block.
pub fn clone_stmt(s: &Stmt) -> (r: Stmt)
    ensures
        r@ == s@,
    decreases s,
{
    match s {
        Stmt::Stmt { sgl_stmts } => {
            let r = Stmt::Stmt { sgl_stmts: clone_sgl_stmts(sgl_stmts) };
            assert(r@ =~= s@);
            r
        },
    }
}

/// Copies a list of statements.
pub fn clone_sgl_stmts(ss: &Vec<SglStmt>) -> (r: Vec<SglStmt>)
    ensures
        r@.len() == ss@.len(),
        forall|j: int| 0 <= j < ss@.len() ==> r@[j]@ == ss@[j]@,
    decreases ss,
{
    let mut out: Vec<SglStmt> = Vec::new();
    let mut i: usize = 0;
    while i < ss.len()
        invariant
            i <= ss.len(),
            out@.len() == i,
            forall|j: int| 0 <= j < i ==> out@[j]@ == ss@[j]@,
        decreases ss.len() - i,
    {
        out.push(clone_sgl_stmt(&ss[i]));
        i += 1;
    }
    out
}

/// Copies a single statement.
pub fn clone_sgl_stmt(s: &SglStmt) -> (r: SglStmt)
    ensures
        r@ == s@,
    decreases s,
{
    match s {
        SglStmt::Do { act } => SglStmt::Do { act: clone_expr(act) },
        SglStmt::Ass { dst, src } => SglStmt::Ass { dst: clone_expr(dst), src: clone_expr(src) },
    }
}

impl Clone for Expr {
    fn clone(&self) -> (r: Self)
        ensures
            r@ == self@,
    {
        clone_expr(self)
    }
}

impl Clone for Stmt {
    fn clone(&self) -> (r: Self)
        ensures
            r@ == self@,
    {
        clone_stmt(self)
    }
}

impl Clone for SglStmt {
    fn clone(&self) -> (r: Self)
        ensures
            r@ == self@,
    {
        clone_sgl_stmt(self)
    }
}

} // verus!
