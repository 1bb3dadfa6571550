//! Values, and the messages that workers and their manager exchange.
use crate::frontend::meerast::{clone_expr, Expr, Term};
use vstd::prelude::*;

verus! {

/// What an expression evaluates to.
#[derive(Debug, PartialEq, Eq)]
pub enum Val {
    Int(i32),
    Bool(bool),
    /// An action block, kept as the expression that denotes it.
    Action(Expr),
    /// A function, kept as the lambda expression that denotes it.
    Lambda(Expr),
}

/// The value that a `Val` denotes.
pub ghost enum Value {
    Int(int),
    Bool(bool),
    Action(Term),
    Lambda(Term),
}

impl View for Val {
    type V = Value;

    open spec fn view(&self) -> Value {
        match self {
            Val::Int(i) => Value::Int(*i as int),
            Val::Bool(b) => Value::Bool(*b),
            Val::Action(e) => Value::Action(e@),
            Val::Lambda(e) => Value::Lambda(e@),
        }
    }
}

impl DeepView for Val {
    type V = Value;

    open spec fn deep_view(&self) -> Value {
        self@
    }
}

impl Clone for Val {
    fn clone(&self) -> (r: Self)
        ensures
            r@ == self@,
    {
        match self {
            Val::Int(i) => Val::Int(*i),
            Val::Bool(b) => Val::Bool(*b),
            Val::Action(e) => Val::Action(clone_expr(e)),
            Val::Lambda(e) => Val::Lambda(clone_expr(e)),
        }
    }
}

/// Why an expression that is well typed has no value.
#[derive(Debug, Clone, Copy, PartialEq, Eq, Structural)]
pub enum EvalError {
    /// The expression asks for a member of another service, and services
    /// cannot reach each other.
    UnsupportedCapability,
}

/// The outcome of an evaluation as contracts see it.
pub open spec fn shown(r: Result<Val, EvalError>) -> Result<Value, EvalError> {
    match r {
        Ok(v) => Ok(v@),
        Err(e) => Err(e),
    }
}

/// The outcome of an evaluation that may have none, as contracts see it.
pub open spec fn shown_if_any(r: Option<Result<Val, EvalError>>) -> Option<
    Result<Value, EvalError>,
> {
    match r {
        Some(x) => Some(shown(x)),
        None => None,
    }
}

/// Copies a value that may be absent.
pub fn clone_opt_val(v: &Option<Val>) -> (r: Option<Val>)
    ensures
        r.deep_view() == v.deep_view(),
{
    match v {
        Some(x) => Some(x.clone()),
        None => None,
    }
}

/// A message to a worker or to the manager.
///
/// A worker is addressed by the name that it owns: where a message carries
/// the address of a worker, it carries that name.
#[derive(Debug)]
pub enum Message {
    /// Manager to worker: take the name and the value of this expression.
    InitVar { var_name: String, var_expr: Expr },
    /// Manager to worker: take the value of this expression.
    AssignVar { var_name: String, new_val_expr: Expr },
    /// Manager to worker: the worker at `sender` reads you from now on.
    AddSenderToSucc { sender: String },
    /// Manager to worker: report your value.
    RetrieveVal,
    /// Worker to manager: my value.
    AppriseVal { worker_name: String, worker_value: Option<Val> },
    /// Worker to worker: the value of one that you read.
    PredUpdatedTo { pred_name: String, pred_value: Option<Val> },
}

/// The message that a `Message` denotes.
pub ghost enum Signal {
    InitVar { var_name: Seq<char>, var_expr: Term },
    AssignVar { var_name: Seq<char>, new_val_expr: Term },
    AddSenderToSucc { sender: Seq<char> },
    RetrieveVal,
    AppriseVal { worker_name: Seq<char>, worker_value: Option<Value> },
    PredUpdatedTo { pred_name: Seq<char>, pred_value: Option<Value> },
}

impl View for Message {
    type V = Signal;

    open spec fn view(&self) -> Signal {
        match self {
            Message::InitVar { var_name, var_expr } => Signal::InitVar {
                var_name: var_name@,
                var_expr: var_expr@,
            },
            Message::AssignVar { var_name, new_val_expr } => Signal::AssignVar {
                var_name: var_name@,
                new_val_expr: new_val_expr@,
            },
            Message::AddSenderToSucc { sender } => Signal::AddSenderToSucc { sender: sender@ },
            Message::RetrieveVal => Signal::RetrieveVal,
            Message::AppriseVal { worker_name, worker_value } => Signal::AppriseVal {
                worker_name: worker_name@,
                worker_value: worker_value.deep_view(),
            },
            Message::PredUpdatedTo { pred_name, pred_value } => Signal::PredUpdatedTo {
                pred_name: pred_name@,
                pred_value: pred_value.deep_view(),
            },
        }
    }
}

impl Clone for Message {
    fn clone(&self) -> (r: Self)
        ensures
            r@ == self@,
    {
        match self {
            Message::InitVar { var_name, var_expr } => Message::InitVar {
                var_name: var_name.clone(),
                var_expr: clone_expr(var_expr),
            },
            Message::AssignVar { var_name, new_val_expr } => Message::AssignVar {
                var_name: var_name.clone(),
                new_val_expr: clone_expr(new_val_expr),
            },
            Message::AddSenderToSucc { sender } => Message::AddSenderToSucc {
                sender: sender.clone(),
            },
            Message::RetrieveVal => Message::RetrieveVal,
            Message::AppriseVal { worker_name, worker_value } => Message::AppriseVal {
                worker_name: worker_name.clone(),
                worker_value: clone_opt_val(worker_value),
            },
            Message::PredUpdatedTo { pred_name, pred_value } => Message::PredUpdatedTo {
                pred_name: pred_name.clone(),
                pred_value: clone_opt_val(pred_value),
            },
        }
    }
}

/// Where a message goes.
#[derive(Debug)]
pub enum Recipient {
    /// To the manager, on the channel on which workers reply.
    Manager,
    /// To the worker that owns this name.
    Worker(String),
}

/// The recipient that a `Recipient` denotes.
pub ghost enum Address {
    Manager,
    Worker(Seq<char>),
}

impl View for Recipient {
    type V = Address;

    open spec fn view(&self) -> Address {
        match self {
            Recipient::Manager => Address::Manager,
            Recipient::Worker(name) => Address::Worker(name@),
        }
    }
}

/// A message on its way: what a worker or the manager asks to have sent.
#[derive(Debug)]
pub struct Outgoing {
    pub to: Recipient,
    pub msg: Message,
}

/// The message on its way that an `Outgoing` denotes.
pub ghost struct Dispatch {
    pub to: Address,
    pub msg: Signal,
}

impl View for Outgoing {
    type V = Dispatch;

    open spec fn view(&self) -> Dispatch {
        Dispatch { to: self.to@, msg: self.msg@ }
    }
}

/// The messages on their way that a list of `Outgoing` denotes, in order.
pub open spec fn dispatches(out: Seq<Outgoing>) -> Seq<Dispatch> {
    Seq::new(out.len(), |i: int| out[i]@)
}

} // verus!
