//! The manager: the directory of the workers, the dependency graph, and the
//! messages by which a front end drives the workers.
use crate::backend::dependency::{admitted, traversable, with_decl};
use crate::backend::evaluator::Replica;
use crate::backend::graph::{cyclic, lemma_empty_acyclic, DependencyGraph, Graph};
use crate::backend::message::{
    clone_opt_val, dispatches, Address, Dispatch, Message, Outgoing, Recipient, Signal, Val, Value,
};
use crate::backend::semantics::{evaluates, value_of, Env};
use crate::backend::worker::{Worker, WorkerState};
use crate::frontend::meerast::{Decl, Expr, Term};
use crate::frontend::typecheck::{Ty, Type};
use crate::names::{names_of, NameMap, NameSet};
use vstd::prelude::*;

verus! {

/// The kinds of lock on a name.
#[derive(Debug, Clone, Copy, PartialEq, Eq)]
pub enum LockType {
    RLock,
    WLock,
}

impl DeepView for LockType {
    type V = LockType;

    open spec fn deep_view(&self) -> LockType {
        *self
    }
}

/// Whether a name is a `Var`, assigned from outside, or a `Def`, computed
/// from the names it reads.
#[derive(Debug, Clone, Copy, PartialEq, Eq, Structural)]
pub enum VarOrDef {
    Var,
    Def,
}

impl DeepView for VarOrDef {
    type V = VarOrDef;

    open spec fn deep_view(&self) -> VarOrDef {
        *self
    }
}

/// The manager of the workers.
#[derive(Debug)]
pub struct ServiceManager {
    /// The directory: the names that have a worker.
    pub worker_inboxes: NameSet,
    /// The lock on each name, if any.
    pub locks: NameMap<Option<LockType>>,
    /// The type of each name, where it is known.
    pub typenv: NameMap<Option<Type>>,
    /// The kind of each name.
    pub var_or_def_env: NameMap<VarOrDef>,
    /// What each name reads.
    pub dependgraph: DependencyGraph,
}

/// The state of the manager as contracts see it.
pub ghost struct ManagerState {
    pub directory: Set<Seq<char>>,
    pub locks: Map<Seq<char>, Option<LockType>>,
    pub types: Map<Seq<char>, Option<Ty>>,
    pub kinds: Map<Seq<char>, VarOrDef>,
    pub graph: Graph,
}

impl View for ServiceManager {
    type V = ManagerState;

    open spec fn view(&self) -> ManagerState {
        ManagerState {
            directory: self.worker_inboxes@,
            locks: self.locks@,
            types: self.typenv@,
            kinds: self.var_or_def_env@,
            graph: self.dependgraph@,
        }
    }
}

/// The replica of a worker that has heard from none of the names it reads.
pub open spec fn blank(names: Seq<Seq<char>>) -> Env {
    Map::new(|k: Seq<char>| names.contains(k), |k: Seq<char>| None::<Value>)
}

/// One request to each name of `readset`, in order, to take the worker of
/// `name` as a successor.
pub open spec fn subscriptions(readset: Seq<Seq<char>>, name: Seq<char>) -> Seq<Dispatch> {
    Seq::new(
        readset.len(),
        |i: int|
            Dispatch {
                to: Address::Worker(readset[i]),
                msg: Signal::AddSenderToSucc { sender: name },
            },
    )
}

/// The value that a worker starts with: that of its expression for a `Def`
/// that reads nothing, none for any other.
pub open spec fn initial_value(
    workertype: VarOrDef,
    readset: Seq<Seq<char>>,
    def_expr: Option<Term>,
) -> Option<Value> {
    if readset.len() == 0 && workertype == VarOrDef::Def && def_expr is Some {
        Some(value_of(def_expr->0, Map::empty()))
    } else {
        None
    }
}

impl ServiceManager {
    /// The collections are in order, and the graph has no cycle.
    pub open spec fn wf(&self) -> bool {
        &&& self.worker_inboxes.wf()
        &&& self.locks.wf()
        &&& self.typenv.wf()
        &&& self.var_or_def_env.wf()
        &&& self.dependgraph.wf()
        &&& !cyclic(self.dependgraph@)
    }

    /// A manager without workers.
    pub fn new() -> (r: Self)
        ensures
            r.wf(),
            r@ == (ManagerState {
                directory: Set::empty(),
                locks: Map::empty(),
                types: Map::empty(),
                kinds: Map::empty(),
                graph: Map::empty(),
            }),
    {
        proof {
            lemma_empty_acyclic();
        }
        ServiceManager {
            worker_inboxes: NameSet::new(),
            locks: NameMap::new(),
            typenv: NameMap::new(),
            var_or_def_env: NameMap::new(),
            dependgraph: NameMap::new(),
        }
    }

    /// Whether `name` has a worker.
    pub fn is_registered(&self, name: &str) -> (r: bool)
        ensures
            r == self@.directory.contains(name@),
    {
        self.worker_inboxes.contains(&name.to_owned())
    }

    /// Admits a declaration into the dependency graph, all or nothing: a
    /// `Def` is entered with the names that its expression reads if the
    /// graph stays free of cycles with it; else the graph is left as it was
    /// and the cycle is reported. A `Var` reads nothing and is admitted as it
    /// is.
    pub fn admit_decl(&mut self, decl: &Decl) -> (r: Result<(), String>)
        requires
            old(self).wf(),
            !(decl is Import),
            decl matches Decl::DefDecl { val, .. } ==> traversable(val@),
        ensures
            final(self).wf(),
            r is Err <==> cyclic(with_decl(old(self)@.graph, *decl)),
            r matches Err(msg) ==> msg@ == "cyclic dependency"@,
            final(self)@ == (ManagerState {
                graph: admitted(old(self)@.graph, *decl),
                ..old(self)@
            }),
    {
        crate::backend::dependency::admit_decl(&mut self.dependgraph, decl)
    }

    /// Makes the worker of `name` and enters the name in the directory and
    /// in the graph. Returns the worker, for the caller to run, and the
    /// requests that subscribe it to each name it reads.
    ///
    /// The worker starts with a replica that has no value for any name of
    /// `readset`. A `Def` that reads nothing has its value from the start;
    /// any other worker starts without one.
    pub fn create_worker(
        &mut self,
        name: &str,
        workertype: VarOrDef,
        readset: &Vec<String>,
        def_expr: Option<Expr>,
    ) -> (r: (Worker, Vec<Outgoing>))
        requires
            old(self).wf(),
            forall|i: int|
                0 <= i < readset@.len() ==> old(self)@.directory.contains(
                    #[trigger] names_of(readset@)[i],
                ),
            !cyclic(old(self)@.graph.insert(name@, names_of(readset@).to_set())),
            readset@.len() == 0 && workertype == VarOrDef::Def ==> def_expr is Some && evaluates(
                def_expr->0@,
                Map::empty(),
            ),
        ensures
            final(self).wf(),
            final(self)@ == (ManagerState {
                directory: old(self)@.directory.insert(name@),
                locks: old(self)@.locks.insert(name@, None),
                types: old(self)@.types.insert(name@, None),
                kinds: old(self)@.kinds.insert(name@, workertype),
                graph: old(self)@.graph.insert(name@, names_of(readset@).to_set()),
            }),
            r.0.replica.wf(),
            r.0@ == (WorkerState {
                successors: Seq::empty(),
                replica: blank(names_of(readset@)),
                curr_val: initial_value(
                    workertype,
                    names_of(readset@),
                    match def_expr {
                        Some(e) => Some(e@),
                        None => None,
                    },
                ),
                def_expr: match def_expr {
                    Some(e) => Some(e@),
                    None => None,
                },
                name: name@,
            }),
            dispatches(r.1@) == subscriptions(names_of(readset@), name@),
    {
        let ghost theirs = names_of(readset@);
        let mut replica: Replica = NameMap::new();
        let mut out: Vec<Outgoing> = Vec::new();
        let mut i: usize = 0;
        assert(replica@ =~= blank(theirs.take(0)));
        while i < readset.len()
            invariant
                i <= readset.len(),
                theirs == names_of(readset@),
                replica.wf(),
                replica@ == blank(theirs.take(i as int)),
                out@.len() == i,
                forall|j: int|
                    0 <= j < i ==> (#[trigger] out@[j])@ == (Dispatch {
                        to: Address::Worker(theirs[j]),
                        msg: Signal::AddSenderToSucc { sender: name@ },
                    }),
            decreases readset.len() - i,
        {
            out.push(
                Outgoing {
                    to: Recipient::Worker(readset[i].clone()),
                    msg: Message::AddSenderToSucc { sender: name.to_owned() },
                },
            );
            replica.insert(readset[i].clone(), None);
            proof {
                let a = theirs.take(i as int);
                let b = theirs.take(i + 1);
                assert(theirs[i as int] == readset@[i as int]@);
                assert forall|k: Seq<char>|
                    b.contains(k) <==> a.contains(k) || k == theirs[i as int] by {
                    if b.contains(k) {
                        let j = choose|j: int| 0 <= j < b.len() && b[j] == k;
                        if j < i {
                            assert(a[j] == k);
                        }
                    }
                    if a.contains(k) {
                        let j = choose|j: int| 0 <= j < a.len() && a[j] == k;
                        assert(b[j] == k);
                    }
                    if k == theirs[i as int] {
                        assert(b[i as int] == k);
                    }
                }
                assert(replica@ =~= blank(b));
            }
            i += 1;
        }
        proof {
            assert(theirs.take(readset@.len() as int) =~= theirs);
            assert(dispatches(out@) =~= subscriptions(theirs, name@));
        }
        let mut worker = Worker::new(name, replica, def_expr);
        if readset.len() == 0 && workertype == VarOrDef::Def {
            proof {
                assert(worker.replica@ =~= Map::<Seq<char>, Option<Value>>::empty());
            }
            let first = match &worker.def_expr {
                Some(e) => match Worker::compute_val(e, &worker.replica) {
                    Ok(v) => v,
                    Err(_) => vstd::pervasive::unreached(),
                },
                None => vstd::pervasive::unreached(),
            };
            worker.curr_val = Some(first);
        }
        self.worker_inboxes.insert(name.to_owned());
        self.locks.insert(name.to_owned(), None);
        self.typenv.insert(name.to_owned(), None);
        self.var_or_def_env.insert(name.to_owned(), workertype);
        self.dependgraph.insert(name.to_owned(), NameSet::from_names(readset));
        (worker, out)
    }

    /// The message that gives the `Var` of `name` its first value: that of
    /// `var_init_val`.
    pub fn init_var_worker(&self, name: &str, var_init_val: Expr) -> (out: Outgoing)
        requires
            self@.directory.contains(name@),
        ensures
            out@ == (Dispatch {
                to: Address::Worker(name@),
                msg: Signal::InitVar { var_name: name@, var_expr: var_init_val@ },
            }),
    {
        Outgoing {
            to: Recipient::Worker(name.to_owned()),
            msg: Message::InitVar { var_name: name.to_owned(), var_expr: var_init_val },
        }
    }

    /// The message that gives the `Var` of `name` a new value: that of
    /// `new_val`.
    pub fn assign_var(&self, name: &str, new_val: Expr) -> (out: Outgoing)
        requires
            self@.directory.contains(name@),
        ensures
            out@ == (Dispatch {
                to: Address::Worker(name@),
                msg: Signal::AssignVar { var_name: name@, new_val_expr: new_val@ },
            }),
    {
        Outgoing {
            to: Recipient::Worker(name.to_owned()),
            msg: Message::AssignVar { var_name: name.to_owned(), new_val_expr: new_val },
        }
    }

    /// The message that asks the worker of `name` for its value. The worker
    /// answers with an `AppriseVal`; `apprised_val` reads the answer.
    pub fn retrieve_val(&self, name: &str) -> (out: Outgoing)
        requires
            self@.directory.contains(name@),
        ensures
            out@ == (Dispatch { to: Address::Worker(name@), msg: Signal::RetrieveVal }),
    {
        Outgoing { to: Recipient::Worker(name.to_owned()), msg: Message::RetrieveVal }
    }

    /// The value that a worker's answer reports: that of an `AppriseVal`;
    /// none for any other message.
    pub fn apprised_val(reply: &Message) -> (r: Option<Val>)
        ensures
            r.deep_view() == match reply@ {
                Signal::AppriseVal { worker_value, .. } => worker_value,
                _ => None,
            },
    {
        match reply {
            Message::AppriseVal { worker_value, .. } => clone_opt_val(worker_value),
            _ => None,
        }
    }
}

} // verus!
