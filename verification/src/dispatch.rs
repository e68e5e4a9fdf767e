//! The broadcast of one query to every endpoint, as a state machine.
//!
//! The machine decides; its driver acts. The driver hands in an event, the
//! machine moves to its next state and answers with the action to perform.
//! A query that does not validate is never sent; a transport failure ends the
//! broadcast, and no endpoint after the failing one gets a request.

use vstd::prelude::*;
use crate::encoding::{encode_request_body, request_body};
use crate::endpoint::{endpoint_url, Endpoint};
use crate::query::{
    accepts, is_accepted, query_syntax_errors, validate_query, SyntaxDiagnostic,
    SyntaxDiagnosticView,
};

verus! {

/// A query text and the endpoints it goes to, in the order in which they
/// are asked.
#[derive(Clone, Debug, PartialEq, Eq)]
pub struct QueryRequest {
    pub query: String,
    pub endpoints: Vec<Endpoint>,
}

/// Where a broadcast stands.
#[derive(Clone, Copy, Debug, PartialEq, Eq, Structural)]
pub enum DispatchState {
    /// Nothing has happened yet: the query is to be validated.
    Idle,
    /// The query is valid; nothing has been sent.
    Validated,
    /// A request to the endpoint `next` is under way.
    Dispatching { next: usize },
    /// Every endpoint has answered.
    Done,
    /// The query was invalid, or a request failed.
    Aborted,
}

/// What the driver reports to the machine.
#[derive(Clone, Debug, PartialEq, Eq)]
pub enum DispatchEvent {
    /// The query was validated, with these syntax errors.
    Validation(Vec<SyntaxDiagnostic>),
    /// The driver is ready to send.
    Begin,
    /// The endpoint asked last has answered, with this body.
    Response(String),
    /// The request to the endpoint asked last has failed.
    TransportFailure(String),
}

/// A [`DispatchEvent`] as a plain value.
pub enum DispatchEventView {
    Validation(Seq<SyntaxDiagnosticView>),
    Begin,
    Response(Seq<char>),
    TransportFailure(Seq<char>),
}

impl DeepView for DispatchEvent {
    type V = DispatchEventView;

    open spec fn deep_view(&self) -> DispatchEventView {
        match self {
            DispatchEvent::Validation(errors) => DispatchEventView::Validation(errors.deep_view()),
            DispatchEvent::Begin => DispatchEventView::Begin,
            DispatchEvent::Response(body) => DispatchEventView::Response(body@),
            DispatchEvent::TransportFailure(message) => DispatchEventView::TransportFailure(
                message@,
            ),
        }
    }
}

/// Why a broadcast was aborted.
#[derive(Clone, Debug, PartialEq, Eq)]
pub enum DispatchError {
    /// The query has these syntax errors.
    InvalidQuery(Vec<SyntaxDiagnostic>),
    /// The request to the endpoint of this index failed.
    Transport { endpoint: usize, message: String },
}

/// A [`DispatchError`] as a plain value.
pub enum DispatchErrorView {
    InvalidQuery(Seq<SyntaxDiagnosticView>),
    Transport { endpoint: usize, message: Seq<char> },
}

impl DeepView for DispatchError {
    type V = DispatchErrorView;

    open spec fn deep_view(&self) -> DispatchErrorView {
        match self {
            DispatchError::InvalidQuery(errors) => DispatchErrorView::InvalidQuery(
                errors.deep_view(),
            ),
            DispatchError::Transport { endpoint, message } => DispatchErrorView::Transport {
                endpoint: *endpoint,
                message: message@,
            },
        }
    }
}

/// What the driver is to do next.
#[derive(Clone, Debug, PartialEq, Eq)]
pub enum DispatchAction {
    /// Report [`DispatchEvent::Begin`] to start sending.
    Ready,
    /// Post `body` to `url`, which is the endpoint of index `endpoint`, and
    /// report the answer or the failure.
    Send { endpoint: usize, url: String, body: String },
    /// The broadcast is complete: end with success.
    Finish,
    /// The broadcast is over: end with this error.
    Abort(DispatchError),
    /// The machine did not await this event; nothing has changed.
    Rejected,
}

/// A [`DispatchAction`] as a plain value.
pub enum DispatchActionView {
    Ready,
    Send { endpoint: usize, url: Seq<char>, body: Seq<char> },
    Finish,
    Abort(DispatchErrorView),
    Rejected,
}

impl DeepView for DispatchAction {
    type V = DispatchActionView;

    open spec fn deep_view(&self) -> DispatchActionView {
        match self {
            DispatchAction::Ready => DispatchActionView::Ready,
            DispatchAction::Send { endpoint, url, body } => DispatchActionView::Send {
                endpoint: *endpoint,
                url: url@,
                body: body@,
            },
            DispatchAction::Finish => DispatchActionView::Finish,
            DispatchAction::Abort(error) => DispatchActionView::Abort(error.deep_view()),
            DispatchAction::Rejected => DispatchActionView::Rejected,
        }
    }
}

/// The machine as a plain value: its state, the query, the hosts of the
/// endpoints, and the bodies received so far, the first from the first
/// endpoint.
pub struct DispatchModel {
    pub state: DispatchState,
    pub query: Seq<char>,
    pub endpoints: Seq<Seq<char>>,
    pub responses: Seq<Seq<char>>,
}

impl DispatchModel {
    /// Whether state and responses fit together: nothing is received before
    /// dispatching starts, the endpoint being asked is the one after the
    /// last that answered, and all have answered when the machine is done.
    /// The endpoints are as many as a vector can hold.
    pub open spec fn well_formed(self) -> bool {
        &&& self.endpoints.len() <= usize::MAX
        &&& match self.state {
            DispatchState::Idle | DispatchState::Validated => self.responses.len() == 0,
            DispatchState::Dispatching { next } => next < self.endpoints.len()
                && self.responses.len() == next,
            DispatchState::Done => self.responses.len() == self.endpoints.len(),
            DispatchState::Aborted => self.responses.len() < self.endpoints.len()
                || self.responses.len() == 0,
        }
    }

    /// The action that sends the query to the endpoint of index `endpoint`.
    pub open spec fn send_to(self, endpoint: usize) -> DispatchActionView {
        DispatchActionView::Send {
            endpoint,
            url: endpoint_url(self.endpoints[endpoint as int]),
            body: request_body(self.query),
        }
    }

    /// The state after `event`.
    pub open spec fn next_state(self, event: DispatchEventView) -> DispatchState {
        match (self.state, event) {
            (DispatchState::Idle, DispatchEventView::Validation(errors)) => if accepts(errors) {
                DispatchState::Validated
            } else {
                DispatchState::Aborted
            },
            (DispatchState::Validated, DispatchEventView::Begin) => if self.endpoints.len() == 0 {
                DispatchState::Done
            } else {
                DispatchState::Dispatching { next: 0 }
            },
            (DispatchState::Dispatching { next }, DispatchEventView::Response(_)) => if next + 1
                < self.endpoints.len() {
                DispatchState::Dispatching { next: (next + 1) as usize }
            } else {
                DispatchState::Done
            },
            (
                DispatchState::Dispatching { next },
                DispatchEventView::TransportFailure(_),
            ) => DispatchState::Aborted,
            _ => self.state,
        }
    }

    /// The bodies received after `event`: one more where a response came in
    /// while one was awaited.
    pub open spec fn next_responses(self, event: DispatchEventView) -> Seq<Seq<char>> {
        match (self.state, event) {
            (
                DispatchState::Dispatching { next },
                DispatchEventView::Response(body),
            ) => self.responses.push(body),
            _ => self.responses,
        }
    }

    /// The machine after `event`.
    pub open spec fn next(self, event: DispatchEventView) -> DispatchModel {
        DispatchModel {
            state: self.next_state(event),
            query: self.query,
            endpoints: self.endpoints,
            responses: self.next_responses(event),
        }
    }

    /// The action with which the machine answers `event`.
    pub open spec fn action(self, event: DispatchEventView) -> DispatchActionView {
        match (self.state, event) {
            (DispatchState::Idle, DispatchEventView::Validation(errors)) => if accepts(errors) {
                DispatchActionView::Ready
            } else {
                DispatchActionView::Abort(DispatchErrorView::InvalidQuery(errors))
            },
            (DispatchState::Validated, DispatchEventView::Begin) => if self.endpoints.len() == 0 {
                DispatchActionView::Finish
            } else {
                self.send_to(0)
            },
            (DispatchState::Dispatching { next }, DispatchEventView::Response(_)) => if next + 1
                < self.endpoints.len() {
                self.send_to((next + 1) as usize)
            } else {
                DispatchActionView::Finish
            },
            (
                DispatchState::Dispatching { next },
                DispatchEventView::TransportFailure(message),
            ) => DispatchActionView::Abort(
                DispatchErrorView::Transport { endpoint: next, message },
            ),
            _ => DispatchActionView::Rejected,
        }
    }
}

/// The machine that runs one broadcast.
#[derive(Debug)]
pub struct Dispatcher {
    request: QueryRequest,
    state: DispatchState,
    responses: Vec<String>,
}

impl View for Dispatcher {
    type V = DispatchModel;

    closed spec fn view(&self) -> DispatchModel {
        DispatchModel {
            state: self.state,
            query: self.request.query@,
            endpoints: self.request.endpoints.deep_view(),
            responses: self.responses.deep_view(),
        }
    }
}

impl Dispatcher {
    /// A machine for `request`, idle.
    pub fn new(request: QueryRequest) -> (machine: Dispatcher)
        ensures
            machine@.state == DispatchState::Idle,
            machine@.query == request.query@,
            machine@.endpoints == request.endpoints.deep_view(),
            machine@.responses == Seq::<Seq<char>>::empty(),
            machine@.well_formed(),
    {
        let machine = Dispatcher { request, state: DispatchState::Idle, responses: Vec::new() };
        assert(machine.responses.deep_view() =~= Seq::<Seq<char>>::empty());
        assert(machine.request.endpoints.deep_view().len() == machine.request.endpoints.len());
        machine
    }

    /// The state of the machine.
    pub fn state(&self) -> (state: DispatchState)
        ensures
            state == self@.state,
    {
        self.state
    }

    /// The bodies received so far, the first from the first endpoint.
    pub fn responses(&self) -> (responses: &Vec<String>)
        ensures
            responses.deep_view() == self@.responses,
    {
        &self.responses
    }

    /// The request that the machine was made for.
    pub fn request(&self) -> (request: &QueryRequest)
        ensures
            request.query@ == self@.query,
            request.endpoints.deep_view() == self@.endpoints,
    {
        &self.request
    }

    /// The exit code that the state asks for: 0 when the broadcast is done,
    /// 1 when it was aborted, none while it runs.
    pub fn exit_code(&self) -> (code: Option<u8>)
        ensures
            code == exit_code_of(self@.state),
    {
        match self.state {
            DispatchState::Done => Some(0),
            DispatchState::Aborted => Some(1),
            _ => None,
        }
    }

    /// The action that sends the query to the endpoint of index `endpoint`.
    fn send(&self, endpoint: usize) -> (action: DispatchAction)
        requires
            endpoint < self@.endpoints.len(),
        ensures
            action.deep_view() == self@.send_to(endpoint),
    {
        assert(self.request.endpoints.deep_view()[endpoint as int]
            == self.request.endpoints@[endpoint as int].deep_view());
        assert(self.request.endpoints.deep_view().len() == self.request.endpoints@.len());
        DispatchAction::Send {
            endpoint,
            url: self.request.endpoints[endpoint].url(),
            body: encode_request_body(self.request.query.as_str()),
        }
    }

    /// Validates the query of the request and takes the result as the
    /// event [`DispatchEvent::Validation`].
    pub fn validate(&mut self) -> (action: DispatchAction)
        ensures
            final(self)@ == old(self)@.next(
                DispatchEventView::Validation(query_syntax_errors(old(self)@.query)),
            ),
            action.deep_view() == old(self)@.action(
                DispatchEventView::Validation(query_syntax_errors(old(self)@.query)),
            ),
    {
        let errors = validate_query(self.request.query.as_str());
        self.step(DispatchEvent::Validation(errors))
    }

    /// Takes `event`, moves to the next state and answers with the action
    /// that the driver is to perform.
    pub fn step(&mut self, event: DispatchEvent) -> (action: DispatchAction)
        ensures
            final(self)@ == old(self)@.next(event.deep_view()),
            action.deep_view() == old(self)@.action(event.deep_view()),
    {
        let count = self.request.endpoints.len();
        assert(self.request.endpoints.deep_view().len() == self.request.endpoints@.len());
        match (self.state, event) {
            (DispatchState::Idle, DispatchEvent::Validation(errors)) => {
                if is_accepted(&errors) {
                    self.state = DispatchState::Validated;
                    DispatchAction::Ready
                } else {
                    self.state = DispatchState::Aborted;
                    DispatchAction::Abort(DispatchError::InvalidQuery(errors))
                }
            },
            (DispatchState::Validated, DispatchEvent::Begin) => {
                if count == 0 {
                    self.state = DispatchState::Done;
                    DispatchAction::Finish
                } else {
                    self.state = DispatchState::Dispatching { next: 0 };
                    self.send(0)
                }
            },
            (DispatchState::Dispatching { next }, DispatchEvent::Response(body)) => {
                let ghost before = self.responses.deep_view();
                let ghost text = body@;
                self.responses.push(body);
                assert(self.responses.deep_view() =~= before.push(text));
                if count > 0 && next < count - 1 {
                    self.state = DispatchState::Dispatching { next: next + 1 };
                    self.send(next + 1)
                } else {
                    self.state = DispatchState::Done;
                    DispatchAction::Finish
                }
            },
            (DispatchState::Dispatching { next }, DispatchEvent::TransportFailure(message)) => {
                self.state = DispatchState::Aborted;
                DispatchAction::Abort(DispatchError::Transport { endpoint: next, message })
            },
            _ => DispatchAction::Rejected,
        }
    }
}

/// The exit code that a state asks for.
pub open spec fn exit_code_of(state: DispatchState) -> Option<u8> {
    match state {
        DispatchState::Done => Some(0u8),
        DispatchState::Aborted => Some(1u8),
        _ => None,
    }
}

/// A well-formed machine stays well-formed, whatever the event.
pub proof fn law_step_keeps_well_formed(machine: DispatchModel, event: DispatchEventView)
    requires
        machine.well_formed(),
    ensures
        machine.next(event).well_formed(),
{
}

/// A query with a syntax error is never sent: validation moves an idle
/// machine with such a query to `Aborted`, and the answer is an abort that
/// carries the errors.
pub proof fn law_invalid_query_aborts(machine: DispatchModel, errors: Seq<SyntaxDiagnosticView>)
    requires
        machine.state == DispatchState::Idle,
        !accepts(errors),
    ensures
        machine.next(DispatchEventView::Validation(errors)).state == DispatchState::Aborted,
        machine.action(DispatchEventView::Validation(errors)) == DispatchActionView::Abort(
            DispatchErrorView::InvalidQuery(errors),
        ),
{
}

/// A transport failure ends the broadcast: the machine is `Aborted`, and the
/// answer names the endpoint that was being asked.
pub proof fn law_transport_failure_aborts(machine: DispatchModel, message: Seq<char>)
    requires
        machine.state is Dispatching,
    ensures
        machine.next(DispatchEventView::TransportFailure(message)).state == DispatchState::Aborted,
        machine.action(DispatchEventView::TransportFailure(message)) == DispatchActionView::Abort(
            DispatchErrorView::Transport { endpoint: machine.state->next, message },
        ),
{
}

/// `Done` and `Aborted` are final: no event changes such a machine, and no
/// event makes it send.
pub proof fn law_final_states_stay(machine: DispatchModel, event: DispatchEventView)
    requires
        machine.state == DispatchState::Done || machine.state == DispatchState::Aborted,
    ensures
        machine.next(event) == machine,
        machine.action(event) == DispatchActionView::Rejected,
{
}

/// Requests go out one at a time and in the order of the endpoints: the
/// machine sends only to the endpoint whose index is the number of
/// responses it holds, and is then waiting for that endpoint.
pub proof fn law_sends_in_order(machine: DispatchModel, event: DispatchEventView)
    requires
        machine.well_formed(),
        machine.action(event) is Send,
    ensures
        machine.action(event)->endpoint == machine.next(event).responses.len(),
        machine.next(event).state == (DispatchState::Dispatching {
            next: machine.action(event)->endpoint,
        }),
        machine.action(event) == machine.send_to(machine.action(event)->endpoint),
{
}

/// A machine is done only when every endpoint has answered.
pub proof fn law_done_means_all_answered(machine: DispatchModel, event: DispatchEventView)
    requires
        machine.well_formed(),
        machine.next(event).state == DispatchState::Done,
    ensures
        machine.next(event).responses.len() == machine.endpoints.len(),
{
}

} // verus!
