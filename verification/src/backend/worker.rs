//! The worker of one declared name: its state, and what it does with each
//! message that it receives.
use crate::backend::evaluator::Replica;
use crate::backend::message::{
    clone_opt_val, dispatches, Address, Dispatch, Message, Outgoing, Recipient, Signal, Val,
    Value,
};
use crate::backend::semantics::{eval, evaluates, value_of, Env};
use crate::frontend::meerast::{Expr, Term};
use crate::names::{names_of, slot, NameMap};
use vstd::prelude::*;

verus! {

/// The state of the worker that owns one declared name.
#[derive(Debug)]
pub struct Worker {
    /// The workers that read this one, in the order in which they subscribed.
    pub senders_to_succs: Vec<String>,
    /// The last value received from each worker that this one reads.
    pub replica: Replica,
    /// The value of the name, once it has one.
    pub curr_val: Option<Val>,
    /// The defining expression of a `Def`; a `Var` has none.
    pub def_expr: Option<Expr>,
    /// The name that the worker owns.
    pub name: String,
}

/// The state of a worker as contracts see it.
pub ghost struct WorkerState {
    pub successors: Seq<Seq<char>>,
    pub replica: Env,
    pub curr_val: Option<Value>,
    pub def_expr: Option<Term>,
    pub name: Seq<char>,
}

impl View for Worker {
    type V = WorkerState;

    open spec fn view(&self) -> WorkerState {
        WorkerState {
            successors: names_of(self.senders_to_succs@),
            replica: self.replica@,
            curr_val: self.curr_val.deep_view(),
            def_expr: match self.def_expr {
                Some(e) => Some(e@),
                None => None,
            },
            name: self.name@,
        }
    }
}

/// Every name of the replica has a value: the worker may fire.
pub open spec fn all_present(env: Env) -> bool {
    forall|k: Seq<char>| env.contains_key(k) ==> (#[trigger] env[k]) is Some
}

/// The message by which the worker of `name` tells a reader its value.
pub open spec fn update_of(name: Seq<char>, value: Option<Value>) -> Signal {
    Signal::PredUpdatedTo { pred_name: name, pred_value: value }
}

/// One copy of `msg` to each of `successors`, in order.
pub open spec fn to_each(successors: Seq<Seq<char>>, msg: Signal) -> Seq<Dispatch> {
    Seq::new(successors.len(), |i: int| Dispatch { to: Address::Worker(successors[i]), msg })
}

/// The expression that the worker evaluates on `msg`, and the replica
/// against which it does: the expression of an `InitVar` or `AssignVar`; on
/// a `PredUpdatedTo` that brings a value and fills the last gap of the
/// replica, the defining expression, if there is one. `None` where the
/// message calls for no evaluation.
pub open spec fn evaluated(w: WorkerState, msg: Signal) -> Option<(Option<Term>, Env)> {
    match msg {
        Signal::InitVar { var_expr, .. } => Some((Some(var_expr), w.replica)),
        Signal::AssignVar { new_val_expr, .. } => Some((Some(new_val_expr), w.replica)),
        Signal::PredUpdatedTo { pred_name, pred_value: Some(v) } => {
            let env = w.replica.insert(pred_name, Some(v));
            if all_present(env) {
                Some((w.def_expr, env))
            } else {
                None
            }
        },
        _ => None,
    }
}

/// The worker can take `msg` without a fault: it is no `AppriseVal`, and
/// what the message has it evaluate is there and has a value.
pub open spec fn admits(w: WorkerState, msg: Signal) -> bool {
    &&& !(msg is AppriseVal)
    &&& evaluated(w, msg) matches Some((e, env)) ==> e is Some && evaluates(e->0, env)
}

/// As `admits`, with the evaluation nesting at most `fuel` applications in
/// one another.
pub open spec fn admits_within(w: WorkerState, msg: Signal, fuel: nat) -> bool {
    &&& !(msg is AppriseVal)
    &&& evaluated(w, msg) matches Some((e, env)) ==> e is Some && eval(e->0, env, fuel)
        matches Some(Ok(_))
}

/// The value that the worker computes on `msg`, where the message has it
/// evaluate.
pub open spec fn computed(w: WorkerState, msg: Signal) -> Option<Value> {
    match evaluated(w, msg) {
        Some((Some(e), env)) => Some(value_of(e, env)),
        _ => None,
    }
}

/// The state of the worker after `msg`.
pub open spec fn next_state(w: WorkerState, msg: Signal) -> WorkerState {
    match msg {
        Signal::InitVar { var_name, .. } => WorkerState {
            name: var_name,
            curr_val: computed(w, msg),
            ..w
        },
        Signal::AssignVar { .. } => WorkerState { curr_val: computed(w, msg), ..w },
        Signal::AddSenderToSucc { sender } => WorkerState {
            successors: w.successors.push(sender),
            ..w
        },
        Signal::RetrieveVal => w,
        Signal::AppriseVal { .. } => w,
        Signal::PredUpdatedTo { pred_name, pred_value } => match pred_value {
            Some(v) => {
                let env = w.replica.insert(pred_name, Some(v));
                if all_present(env) {
                    WorkerState { replica: env, curr_val: computed(w, msg), ..w }
                } else {
                    WorkerState { replica: env, ..w }
                }
            },
            None => w,
        },
    }
}

/// The messages that the worker sends on `msg`, in order.
pub open spec fn sent(w: WorkerState, msg: Signal) -> Seq<Dispatch> {
    match msg {
        Signal::InitVar { var_name, .. } => to_each(
            w.successors,
            update_of(var_name, computed(w, msg)),
        ),
        Signal::AssignVar { .. } => to_each(w.successors, update_of(w.name, computed(w, msg))),
        Signal::AddSenderToSucc { sender } => seq![
            Dispatch { to: Address::Worker(sender), msg: update_of(w.name, w.curr_val) },
        ],
        Signal::RetrieveVal => seq![
            Dispatch {
                to: Address::Manager,
                msg: Signal::AppriseVal { worker_name: w.name, worker_value: w.curr_val },
            },
        ],
        Signal::AppriseVal { .. } => Seq::empty(),
        Signal::PredUpdatedTo { pred_name, pred_value } => match pred_value {
            Some(v) => {
                if all_present(w.replica.insert(pred_name, Some(v))) {
                    to_each(w.successors, update_of(w.name, computed(w, msg)))
                } else {
                    Seq::empty()
                }
            },
            None => Seq::empty(),
        },
    }
}

/// Whether every name of the replica has a value.
pub fn is_complete(replica: &Replica) -> (r: bool)
    requires
        replica.wf(),
    ensures
        r == all_present(replica@),
{
    let ghost keys = names_of(replica.keys@);
    let mut i: usize = 0;
    while i < replica.vals.len()
        invariant
            i <= replica.vals@.len(),
            replica.wf(),
            forall|j: int| 0 <= j < i ==> (#[trigger] replica.vals@[j]) is Some,
        decreases replica.vals@.len() - i,
    {
        if replica.vals[i].is_none() {
            proof {
                replica.lemma_entry(i as int);
                assert(replica@[replica.keys@[i as int]@] is None);
            }
            return false;
        }
        i += 1;
    }
    proof {
        assert forall|k: Seq<char>| replica@.contains_key(k) implies (#[trigger] replica@[k])
            is Some by {
            let j = slot(names_of(replica.keys@), k);
            assert(replica.vals@[j] is Some);
        }
    }
    true
}

/// One message to each successor that tells it the value of `name`.
pub fn updates_for(succs: &Vec<String>, name: &String, value: &Option<Val>) -> (r: Vec<Outgoing>)
    ensures
        dispatches(r@) == to_each(names_of(succs@), update_of(name@, value.deep_view())),
{
    let mut out: Vec<Outgoing> = Vec::new();
    let mut i: usize = 0;
    while i < succs.len()
        invariant
            i <= succs.len(),
            out@.len() == i,
            forall|j: int|
                0 <= j < i ==> (#[trigger] out@[j])@ == (Dispatch {
                    to: Address::Worker(succs@[j]@),
                    msg: update_of(name@, value.deep_view()),
                }),
        decreases succs.len() - i,
    {
        out.push(
            Outgoing {
                to: Recipient::Worker(succs[i].clone()),
                msg: Message::PredUpdatedTo {
                    pred_name: name.clone(),
                    pred_value: clone_opt_val(value),
                },
            },
        );
        i += 1;
    }
    assert(dispatches(out@) =~= to_each(
        names_of(succs@),
        update_of(name@, value.deep_view()),
    ));
    out
}

/// The value of `expr`, where its evaluation ends with one.
fn known_value(expr: &Expr, replica: &Replica) -> (r: Val)
    requires
        replica.wf(),
        evaluates(expr@, replica@),
    ensures
        r@ == value_of(expr@, replica@),
{
    match Worker::compute_val(expr, replica) {
        Ok(v) => v,
        Err(_) => vstd::pervasive::unreached(),
    }
}

/// Whether the evaluation of `expr` ends with a value and nests no more
/// than `fuel` applications in one another.
fn has_value_within(expr: &Expr, replica: &Replica, fuel: usize) -> (r: bool)
    requires
        replica.wf(),
    ensures
        r == (eval(expr@, replica@, fuel as nat) matches Some(Ok(_))),
        r ==> evaluates(expr@, replica@),
{
    match Worker::try_compute_val(expr, replica, fuel) {
        Some(Ok(_)) => true,
        _ => false,
    }
}

/// Copies a replica.
pub fn clone_replica(replica: &Replica) -> (r: Replica)
    requires
        replica.wf(),
    ensures
        r.wf(),
        r@ == replica@,
{
    let mut keys: Vec<String> = Vec::new();
    let mut vals: Vec<Option<Val>> = Vec::new();
    let mut i: usize = 0;
    while i < replica.keys.len()
        invariant
            i <= replica.keys@.len(),
            replica.wf(),
            keys@.len() == i,
            vals@.len() == i,
            forall|j: int| 0 <= j < i ==> keys@[j]@ == replica.keys@[j]@,
            forall|j: int| 0 <= j < i ==> vals@[j].deep_view() == replica.vals@[j].deep_view(),
        decreases replica.keys@.len() - i,
    {
        keys.push(replica.keys[i].clone());
        vals.push(clone_opt_val(&replica.vals[i]));
        i += 1;
    }
    let r = NameMap { keys, vals };
    assert(names_of(r.keys@) =~= names_of(replica.keys@));
    assert(r@ =~= replica@);
    r
}

impl Worker {
    /// A worker for `name` that has no value and no successor yet.
    pub fn new(name: &str, replica: Replica, def_expr: Option<Expr>) -> (w: Worker)
        ensures
            w@ == (WorkerState {
                successors: Seq::empty(),
                replica: replica@,
                curr_val: None,
                def_expr: match def_expr {
                    Some(e) => Some(e@),
                    None => None,
                },
                name: name@,
            }),
            w.replica == replica,
    {
        let w = Worker {
            senders_to_succs: Vec::new(),
            replica,
            curr_val: None,
            def_expr,
            name: name.to_owned(),
        };
        assert(names_of(w.senders_to_succs@) =~= Seq::<Seq<char>>::empty());
        w
    }

    /// Takes one message: changes the state as the message asks, and
    /// returns the messages to send, in the order in which to send them.
    ///
    /// - `InitVar` gives the worker its name and the value of the
    ///   expression; `AssignVar` gives it the value of the expression. Both
    ///   tell every successor the new value.
    /// - `AddSenderToSucc` adds the sender to the successors and tells it
    ///   the current value, present or not.
    /// - `RetrieveVal` reports the current value to the manager.
    /// - `PredUpdatedTo` with a value stores it in the replica. If every
    ///   name of the replica then has a value, the worker fires: it
    ///   evaluates its defining expression anew and tells every successor
    ///   the result, whether or not it differs from the value before.
    ///   Without a value the message changes nothing.
    pub fn handle_message(&mut self, msg: &Message) -> (out: Vec<Outgoing>)
        requires
            old(self).replica.wf(),
            admits(old(self)@, msg@),
        ensures
            final(self).replica.wf(),
            final(self)@ == next_state(old(self)@, msg@),
            dispatches(out@) == sent(old(self)@, msg@),
    {
        match msg {
            Message::InitVar { var_name, var_expr } => {
                self.name = var_name.clone();
                self.curr_val = Some(known_value(var_expr, &self.replica));
                updates_for(&self.senders_to_succs, &self.name, &self.curr_val)
            },
            Message::AssignVar { var_name: _, new_val_expr } => {
                self.curr_val = Some(known_value(new_val_expr, &self.replica));
                updates_for(&self.senders_to_succs, &self.name, &self.curr_val)
            },
            Message::AddSenderToSucc { sender } => {
                self.senders_to_succs.push(sender.clone());
                let mut out: Vec<Outgoing> = Vec::new();
                out.push(
                    Outgoing {
                        to: Recipient::Worker(sender.clone()),
                        msg: Message::PredUpdatedTo {
                            pred_name: self.name.clone(),
                            pred_value: clone_opt_val(&self.curr_val),
                        },
                    },
                );
                proof {
                    assert(names_of(self.senders_to_succs@) =~= names_of(
                        old(self).senders_to_succs@,
                    ).push(sender@));
                    assert(dispatches(out@) =~= sent(old(self)@, msg@));
                }
                out
            },
            Message::RetrieveVal => {
                let mut out: Vec<Outgoing> = Vec::new();
                out.push(
                    Outgoing {
                        to: Recipient::Manager,
                        msg: Message::AppriseVal {
                            worker_name: self.name.clone(),
                            worker_value: clone_opt_val(&self.curr_val),
                        },
                    },
                );
                proof {
                    assert(dispatches(out@) =~= sent(old(self)@, msg@));
                }
                out
            },
            Message::AppriseVal { .. } => Vec::new(),
            Message::PredUpdatedTo { pred_name, pred_value } => {
                match pred_value {
                    Some(v) => {
                        self.replica.insert(pred_name.clone(), Some(v.clone()));
                        if is_complete(&self.replica) {
                            match &self.def_expr {
                                Some(e) => {
                                    self.curr_val = Some(known_value(e, &self.replica));
                                    updates_for(
                                        &self.senders_to_succs,
                                        &self.name,
                                        &self.curr_val,
                                    )
                                },
                                None => Vec::new(),
                            }
                        } else {
                            let out: Vec<Outgoing> = Vec::new();
                            proof {
                                assert(dispatches(out@) =~= sent(old(self)@, msg@));
                            }
                            out
                        }
                    },
                    None => {
                        let out: Vec<Outgoing> = Vec::new();
                        proof {
                            assert(dispatches(out@) =~= sent(old(self)@, msg@));
                        }
                        out
                    },
                }
            },
        }
    }

    /// Takes one message as `handle_message` does, where the worker can
    /// take it without a fault and what it has to evaluate nests no more
    /// than `fuel` applications in one another. Where not, the worker is
    /// left as it was and `None` is returned.
    pub fn try_handle_message(&mut self, msg: &Message, fuel: usize) -> (r: Option<Vec<Outgoing>>)
        requires
            old(self).replica.wf(),
        ensures
            final(self).replica.wf(),
            r is Some <==> admits_within(old(self)@, msg@, fuel as nat),
            r matches Some(out) ==> admits(old(self)@, msg@) && final(self)@ == next_state(
                old(self)@,
                msg@,
            ) && dispatches(out@) == sent(old(self)@, msg@),
            r is None ==> final(self)@ == old(self)@,
    {
        let ok = match msg {
            Message::InitVar { var_expr, .. } => has_value_within(var_expr, &self.replica, fuel),
            Message::AssignVar { new_val_expr, .. } => has_value_within(
                new_val_expr,
                &self.replica,
                fuel,
            ),
            Message::AddSenderToSucc { .. } => true,
            Message::RetrieveVal => true,
            Message::AppriseVal { .. } => false,
            Message::PredUpdatedTo { pred_name, pred_value } => match pred_value {
                Some(v) => {
                    let mut probe = clone_replica(&self.replica);
                    probe.insert(pred_name.clone(), Some(v.clone()));
                    if is_complete(&probe) {
                        match &self.def_expr {
                            Some(e) => has_value_within(e, &probe, fuel),
                            None => false,
                        }
                    } else {
                        true
                    }
                },
                None => true,
            },
        };
        if ok {
            Some(self.handle_message(msg))
        } else {
            None
        }
    }
}

/// The state of the worker after it has taken `msgs`, one after the other.
pub open spec fn run(w: WorkerState, msgs: Seq<Signal>) -> WorkerState
    decreases msgs.len(),
{
    if msgs.len() == 0 {
        w
    } else {
        next_state(run(w, msgs.drop_last()), msgs.last())
    }
}

/// The worker reads `k` and has no value from it yet.
pub open spec fn waits_for(w: WorkerState, k: Seq<char>) -> bool {
    w.replica.contains_key(k) && w.replica[k] is None
}

/// The message brings a value of `k`.
pub open spec fn brings(msg: Signal, k: Seq<char>) -> bool {
    msg matches Signal::PredUpdatedTo { pred_name, pred_value } && pred_name == k && pred_value
        is Some
}

/// The message tells a successor a value.
pub open spec fn propagates(d: Dispatch) -> bool {
    d.msg matches Signal::PredUpdatedTo { pred_value, .. } && pred_value is Some
}

/// The firing barrier, for one message: a worker without a value that
/// waits for `k` still has no value, still waits for `k`, and tells no
/// successor a value, after any message that neither brings a value of `k`
/// nor assigns a `Var`.
pub proof fn lemma_barrier_holds(w: WorkerState, msg: Signal, k: Seq<char>)
    requires
        w.curr_val is None,
        waits_for(w, k),
        !brings(msg, k),
        !(msg is InitVar),
        !(msg is AssignVar),
    ensures
        next_state(w, msg).curr_val is None,
        waits_for(next_state(w, msg), k),
        forall|i: int| 0 <= i < sent(w, msg).len() ==> !propagates(#[trigger] sent(w, msg)[i]),
{
    match msg {
        Signal::PredUpdatedTo { pred_name, pred_value: Some(v) } => {
            let env = w.replica.insert(pred_name, Some(v));
            assert(env.contains_key(k) && env[k] is None);
            assert(!all_present(env));
        },
        _ => {},
    }
}

/// The firing barrier: a worker that starts without a value and waits for
/// `k` produces no value and tells no successor a value until a message
/// brings a value of `k`, however many values of the other names it reads
/// arrive before.
pub proof fn lemma_firing_barrier(w: WorkerState, msgs: Seq<Signal>, k: Seq<char>, n: int)
    requires
        w.curr_val is None,
        waits_for(w, k),
        0 <= n <= msgs.len(),
        forall|j: int|
            0 <= j < msgs.len() ==> !brings(#[trigger] msgs[j], k) && !(msgs[j] is InitVar) && !(
            msgs[j] is AssignVar),
    ensures
        run(w, msgs.take(n)).curr_val is None,
        waits_for(run(w, msgs.take(n)), k),
        n < msgs.len() ==> forall|i: int|
            0 <= i < sent(run(w, msgs.take(n)), msgs[n]).len() ==> !propagates(
                #[trigger] sent(run(w, msgs.take(n)), msgs[n])[i],
            ),
    decreases n,
{
    if n > 0 {
        lemma_firing_barrier(w, msgs, k, n - 1);
        assert(msgs.take(n).drop_last() =~= msgs.take(n - 1));
        assert(msgs.take(n).last() == msgs[n - 1]);
        lemma_barrier_holds(run(w, msgs.take(n - 1)), msgs[n - 1], k);
    }
    if n < msgs.len() {
        lemma_barrier_holds(run(w, msgs.take(n)), msgs[n], k);
    }
}

/// No suppression: once an update has filled the replica, the same update
/// again leaves the state as it is and has the worker tell every successor
/// its value again, as the first did.
pub proof fn lemma_no_suppression(w: WorkerState, pred_name: Seq<char>, v: Value)
    requires
        all_present(w.replica.insert(pred_name, Some(v))),
    ensures
        ({
            let msg = update_of(pred_name, Some(v));
            let after = next_state(w, msg);
            &&& sent(w, msg) == to_each(w.successors, update_of(w.name, after.curr_val))
            &&& sent(w, msg).len() == w.successors.len()
            &&& next_state(after, msg) == after
            &&& sent(after, msg) == sent(w, msg)
        }),
{
    let msg = update_of(pred_name, Some(v));
    let env = w.replica.insert(pred_name, Some(v));
    let after = next_state(w, msg);
    assert(after.replica.insert(pred_name, Some(v)) =~= env);
}

/// The replica keeps its names: a message changes the set of names in the
/// replica only if it brings the value of a name that the worker does not
/// read.
pub proof fn lemma_replica_names_kept(w: WorkerState, msg: Signal)
    requires
        msg matches Signal::PredUpdatedTo { pred_name, .. } ==> w.replica.contains_key(pred_name),
    ensures
        next_state(w, msg).replica.dom() == w.replica.dom(),
{
    match msg {
        Signal::PredUpdatedTo { pred_name, pred_value: Some(v) } => {
            assert(w.replica.insert(pred_name, Some(v)).dom() =~= w.replica.dom());
        },
        _ => {},
    }
}

} // verus!
