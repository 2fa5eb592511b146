//! One run's decision: from a dump and a request to the command to issue or
//! the status to report.
use vstd::prelude::*;
use crate::dump::DumpObject;
use crate::percent::{is_percentage_text, parse_percentage, percentage_value};
use crate::resolve::{resolution, resolve, ResolveError, ResolveErrorView, SinkView};
use crate::volume::{
    apply_action, payload_for, status, status_of, Action, CommandPayload, CommandPayloadView,
    StatusView,
};

verus! {

/// What the user asked for.
#[derive(Clone, Copy, Debug, PartialEq, Eq, Structural)]
pub enum Request {
    Apply(Action),
    Status,
}

/// What to do on behalf of the user.
pub enum Outcome {
    /// Send `payload` to the control command for node `node_id`.
    Command { node_id: i64, payload: CommandPayload },
    /// Report this status.
    Status(StatusView),
}

pub enum OutcomeView {
    Command { node_id: i64, payload: CommandPayloadView },
    Status(StatusView),
}

impl View for Outcome {
    type V = OutcomeView;

    open spec fn view(&self) -> OutcomeView {
        match self {
            Outcome::Command { node_id, payload } => OutcomeView::Command {
                node_id: *node_id,
                payload: payload@,
            },
            Outcome::Status(s) => OutcomeView::Status(*s),
        }
    }
}

/// The outcome of `request` on a resolved sink.
pub open spec fn outcome_for(sink: SinkView, request: Request) -> OutcomeView {
    match request {
        Request::Apply(action) => OutcomeView::Command {
            node_id: sink.node_id,
            payload: payload_for(sink.range, sink.state, action),
        },
        Request::Status => OutcomeView::Status(status_of(sink.range, sink.state)),
    }
}

/// Resolves the default sink of `objs` and decides what `request` does to it.
pub fn decide(objs: &Vec<DumpObject>, request: Request) -> (r: Result<Outcome, ResolveError>)
    ensures
        match r {
            Ok(o) => resolution(objs@) matches Ok(sink) && o@ == outcome_for(sink, request),
            Err(e) => resolution(objs@) == Err::<SinkView, ResolveErrorView>(e@),
        },
{
    let sink = match resolve(objs) {
        Ok(s) => s,
        Err(e) => {
            return Err(e);
        },
    };
    match request {
        Request::Apply(action) => {
            let payload = apply_action(sink.range, &sink.state, action);
            Ok(Outcome::Command { node_id: sink.node_id, payload })
        },
        Request::Status => Ok(Outcome::Status(status(sink.range, &sink.state))),
    }
}

/// The change amount is not a signed decimal percentage.
#[derive(Clone, Copy, Debug, PartialEq, Eq, Structural)]
pub struct InvalidDeltaArgument;

/// The change action that a percentage argument such as `+1%` asks for.
pub fn parse_change(delta: &str) -> (r: Result<Action, InvalidDeltaArgument>)
    ensures
        r is Ok <==> is_percentage_text(delta@),
        r matches Ok(Action::ChangeBy(p)) ==> p == percentage_value(delta@),
        r matches Ok(a) ==> a is ChangeBy,
{
    match parse_percentage(delta) {
        Some(p) => Ok(Action::ChangeBy(p)),
        None => Err(InvalidDeltaArgument),
    }
}

} // verus!
