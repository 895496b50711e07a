//! The upload worker: a state machine that is told what happened and answers
//! with what to do next. It touches no file and no socket itself; its host
//! carries each action out and reports the result as the next event.

use vstd::prelude::*;
use vstd::string::StrSliceExecFns;
use crate::protocol::{Request, RequestView, Response, ResponseView};
use crate::sandbox::{
    AccessMode, SandboxPolicy, clean_path_of, clean_tar_path, uploader_allow_list, uploader_policy,
};
use crate::text::{chain, decimal, join, slash, to_decimal, trim_end_matches, trimmed};

verus! {

/// The four states of a worker.
#[derive(Clone, Copy, Debug, PartialEq, Eq, Structural)]
pub enum WorkerState {
    Init,
    Running,
    WaitEnd,
    End,
}

/// What the worker is waiting for.
#[derive(Clone, Copy, Debug, PartialEq, Eq, Structural)]
pub enum Phase {
    /// Init: nothing has been asked of the host yet.
    Idle,
    /// Init: the sandbox is being applied.
    Confining,
    /// Init: the control byte is being read.
    ReadingControl,
    /// Init: the bundle is being opened.
    Opening,
    /// Running: a request is being read.
    Receiving,
    /// Running: the bundle is being posted.
    Posting,
    /// Running: the upload is being acknowledged.
    Acking,
    /// Running: the failure of the upload is being reported.
    Reporting,
    /// Running: the end is being acknowledged.
    Ending,
    /// WaitEnd: a failure of the state before is being reported.
    Recovering,
    /// WaitEnd: a request is being read.
    Draining,
    /// WaitEnd: a request other than the end is being turned down.
    Rejecting,
    /// WaitEnd: the end is being acknowledged.
    Closing,
    /// End.
    Stopped,
}

impl Phase {
    /// The state that a phase belongs to.
    pub open spec fn state(self) -> WorkerState {
        match self {
            Phase::Idle | Phase::Confining | Phase::ReadingControl | Phase::Opening =>
                WorkerState::Init,
            Phase::Receiving | Phase::Posting | Phase::Acking | Phase::Reporting | Phase::Ending =>
                WorkerState::Running,
            Phase::Recovering | Phase::Draining | Phase::Rejecting | Phase::Closing =>
                WorkerState::WaitEnd,
            Phase::Stopped => WorkerState::End,
        }
    }

    /// In these phases a final response is on its way to the peer.
    pub open spec fn answering(self) -> bool {
        self == Phase::Acking || self == Phase::Reporting || self == Phase::Ending || self
            == Phase::Recovering || self == Phase::Rejecting || self == Phase::Closing
    }

    /// The state that this phase belongs to.
    pub fn to_state(&self) -> (s: WorkerState)
        ensures
            s == self.state(),
    {
        match self {
            Phase::Idle | Phase::Confining | Phase::ReadingControl | Phase::Opening =>
                WorkerState::Init,
            Phase::Receiving | Phase::Posting | Phase::Acking | Phase::Reporting | Phase::Ending =>
                WorkerState::Running,
            Phase::Recovering | Phase::Draining | Phase::Rejecting | Phase::Closing =>
                WorkerState::WaitEnd,
            Phase::Stopped => WorkerState::End,
        }
    }
}

/// Why the worker could not go on.
#[derive(Debug, PartialEq, Eq)]
pub enum WorkerError {
    /// The host could not carry an action out; the text is the host's.
    Host(String),
    /// A request without an operation, or an upload request without a network.
    BadRequest,
    /// The worker was driven out of turn.
    State,
    /// The remote endpoint turned the upload down.
    Upload(String),
}

/// The text of a request that cannot be served.
pub open spec fn bad_request_text() -> Seq<char> {
    "Bad Request"@
}

/// The text of a worker driven out of turn.
pub open spec fn state_error_text() -> Seq<char> {
    "State error"@
}

/// The text of an upload that the remote endpoint answered with `code`.
pub open spec fn status_text(code: u16) -> Seq<char> {
    "upload error: "@ + ("Unknown status code "@ + decimal(code as nat))
}

/// The text that is sent while the worker waits for the end.
pub open spec fn waiting_end_text() -> Seq<char> {
    "bad request, waiting end"@
}

impl WorkerError {
    /// The text of the error, as it is reported to the peer.
    pub open spec fn text(&self) -> Seq<char> {
        match *self {
            WorkerError::Host(m) => m@,
            WorkerError::BadRequest => bad_request_text(),
            WorkerError::State => state_error_text(),
            WorkerError::Upload(d) => "upload error: "@ + d@,
        }
    }

    /// The text of the error, as it is reported to the peer.
    pub fn message(&self) -> (s: String)
        ensures
            s@ == self.text(),
    {
        match self {
            WorkerError::Host(m) => m.clone(),
            WorkerError::BadRequest => "Bad Request".to_owned(),
            WorkerError::State => "State error".to_owned(),
            WorkerError::Upload(d) => chain("upload error: ", d.as_str()),
        }
    }
}

/// What happened: the result of the action that the worker asked for last.
#[derive(Debug, PartialEq, Eq)]
pub enum Event {
    /// The worker is started.
    Start,
    /// The sandbox was applied, or the response was sent.
    Done,
    /// The control byte was read.
    Control(u8),
    /// The bundle was opened.
    Opened,
    /// A request was read.
    Request(Request),
    /// The remote endpoint answered the upload with this status code.
    Status(u16),
    /// The action failed; the text says how.
    Failed(String),
}

/// An event, as the contracts see it.
pub enum EventView {
    Start,
    Done,
    Control(u8),
    Opened,
    Request(RequestView),
    Status(u16),
    Failed(Seq<char>),
}

impl Event {
    pub open spec fn view(&self) -> EventView {
        match *self {
            Event::Start => EventView::Start,
            Event::Done => EventView::Done,
            Event::Control(b) => EventView::Control(b),
            Event::Opened => EventView::Opened,
            Event::Request(r) => EventView::Request(r@),
            Event::Status(c) => EventView::Status(c),
            Event::Failed(m) => EventView::Failed(m@),
        }
    }
}

/// What the host is to do next.
#[derive(Debug, PartialEq, Eq)]
pub enum Action {
    /// Confine the process by this policy.
    Confine(SandboxPolicy),
    /// Read the control byte.
    ReadControl,
    /// Open the bundle at this path and hold it.
    Open(String),
    /// Read the next request.
    Receive,
    /// Send this response.
    Send(Response),
    /// Post the held bundle to this address.
    Post { url: String, krb_service_name: Option<String> },
    /// Leave the loop: the worker has ended.
    Finish,
    /// Leave the loop with this error.
    Abort(WorkerError),
}

/// An action, as the contracts see it.
pub enum ActionView {
    Confine { allow_list: Seq<Seq<char>>, mode: AccessMode },
    ReadControl,
    Open { path: Seq<char> },
    Receive,
    Send(ResponseView),
    Post { url: Seq<char>, krb_service_name: Option<Seq<char>> },
    Finish,
    Abort { text: Seq<char> },
}

impl Action {
    pub open spec fn view(&self) -> ActionView {
        match *self {
            Action::Confine(p) => ActionView::Confine { allow_list: p.allow_list(), mode: p.mode },
            Action::ReadControl => ActionView::ReadControl,
            Action::Open(p) => ActionView::Open { path: p@ },
            Action::Receive => ActionView::Receive,
            Action::Send(r) => ActionView::Send(r@),
            Action::Post { url, krb_service_name } => ActionView::Post {
                url: url@,
                krb_service_name: match krb_service_name {
                    Some(k) => Some(k@),
                    None => None,
                },
            },
            Action::Finish => ActionView::Finish,
            Action::Abort(e) => ActionView::Abort { text: e.text() },
        }
    }
}

/// A status code that stands for success.
pub open spec fn success(code: u16) -> bool {
    200 <= code < 300
}

/// The address that a bundle is posted to: the network's address without
/// slashes at its end, a slash, and the id of the transfer.
pub open spec fn upload_url(base: Seq<char>, id: Seq<char>) -> Seq<char> {
    trimmed(base, slash()) + slash() + id
}

/// A step of the machine: the phase and the bundle's path after it, and the
/// action it asks for.
pub struct Transition {
    pub phase: Phase,
    pub tarpath: Seq<char>,
    pub action: ActionView,
}

/// The failure of a state: it is reported to the peer as a run error, and the
/// worker goes on to wait for the end.
pub open spec fn fail(tarpath: Seq<char>, text: Seq<char>) -> Transition {
    Transition {
        phase: Phase::Recovering,
        tarpath,
        action: ActionView::Send(ResponseView::Error { err: "run error: "@ + text }),
    }
}

/// The failure of an upload: it is reported to the peer as it is.
pub open spec fn upload_failed(tarpath: Seq<char>, text: Seq<char>) -> Transition {
    Transition {
        phase: Phase::Reporting,
        tarpath,
        action: ActionView::Send(ResponseView::Error { err: text }),
    }
}

/// The worker goes to `phase` and asks for `action`.
pub open spec fn go(phase: Phase, tarpath: Seq<char>, action: ActionView) -> Transition {
    Transition { phase, tarpath, action }
}

/// What an event that is out of turn, or a failure, leads to in a phase of
/// the states Init, Running and WaitEnd, apart from the phase that reports a
/// run error.
pub open spec fn otherwise(tarpath: Seq<char>, event: EventView) -> Transition {
    match event {
        EventView::Failed(m) => fail(tarpath, m),
        _ => fail(tarpath, state_error_text()),
    }
}

/// The machine: from a phase, the bundle's path and an event to the next
/// phase, the path and the action.
pub open spec fn next(phase: Phase, tarpath: Seq<char>, event: EventView) -> Transition {
    match phase {
        Phase::Idle => match event {
            EventView::Start => go(
                Phase::Confining,
                tarpath,
                ActionView::Confine {
                    allow_list: uploader_allow_list(tarpath),
                    mode: AccessMode::ReadOnly,
                },
            ),
            _ => otherwise(tarpath, event),
        },
        Phase::Confining => match event {
            EventView::Done => go(Phase::ReadingControl, tarpath, ActionView::ReadControl),
            _ => otherwise(tarpath, event),
        },
        Phase::ReadingControl => match event {
            EventView::Control(b) => if b == 1 {
                go(Phase::Opening, tarpath, ActionView::Open { path: tarpath })
            } else if b == 2 {
                go(
                    Phase::Opening,
                    clean_path_of(tarpath),
                    ActionView::Open { path: clean_path_of(tarpath) },
                )
            } else {
                go(Phase::Draining, tarpath, ActionView::Receive)
            },
            _ => otherwise(tarpath, event),
        },
        Phase::Opening => match event {
            EventView::Opened => go(Phase::Receiving, tarpath, ActionView::Receive),
            _ => otherwise(tarpath, event),
        },
        Phase::Receiving => match event {
            EventView::Request(RequestView::Upload(u)) => match u.network {
                Some(n) => go(
                    Phase::Posting,
                    tarpath,
                    ActionView::Post {
                        url: upload_url(n.url, u.id),
                        krb_service_name: if n.krb_service_name.len() > 0 {
                            Some(n.krb_service_name)
                        } else {
                            None
                        },
                    },
                ),
                None => upload_failed(tarpath, bad_request_text()),
            },
            EventView::Request(RequestView::End) => go(
                Phase::Ending,
                tarpath,
                ActionView::Send(ResponseView::End),
            ),
            EventView::Request(RequestView::Empty) => fail(tarpath, bad_request_text()),
            _ => otherwise(tarpath, event),
        },
        Phase::Posting => match event {
            EventView::Status(code) => if success(code) {
                go(Phase::Acking, tarpath, ActionView::Send(ResponseView::Upload))
            } else {
                upload_failed(tarpath, status_text(code))
            },
            EventView::Failed(m) => upload_failed(tarpath, m),
            _ => otherwise(tarpath, event),
        },
        Phase::Acking => match event {
            EventView::Done => go(Phase::Draining, tarpath, ActionView::Receive),
            EventView::Failed(m) => upload_failed(tarpath, m),
            _ => otherwise(tarpath, event),
        },
        Phase::Reporting => match event {
            EventView::Done => go(Phase::Draining, tarpath, ActionView::Receive),
            _ => otherwise(tarpath, event),
        },
        Phase::Ending => match event {
            EventView::Done => go(Phase::Stopped, tarpath, ActionView::Finish),
            _ => otherwise(tarpath, event),
        },
        Phase::Recovering => match event {
            EventView::Done => go(Phase::Draining, tarpath, ActionView::Receive),
            EventView::Failed(m) => go(Phase::Stopped, tarpath, ActionView::Abort { text: m }),
            _ => go(Phase::Stopped, tarpath, ActionView::Abort { text: state_error_text() }),
        },
        Phase::Draining => match event {
            EventView::Request(RequestView::End) => go(
                Phase::Closing,
                tarpath,
                ActionView::Send(ResponseView::End),
            ),
            EventView::Request(RequestView::Empty) => fail(tarpath, bad_request_text()),
            EventView::Request(_) => go(
                Phase::Rejecting,
                tarpath,
                ActionView::Send(ResponseView::Error { err: waiting_end_text() }),
            ),
            _ => otherwise(tarpath, event),
        },
        Phase::Rejecting => match event {
            EventView::Done => go(Phase::Draining, tarpath, ActionView::Receive),
            _ => otherwise(tarpath, event),
        },
        Phase::Closing => match event {
            EventView::Done => go(Phase::Stopped, tarpath, ActionView::Finish),
            _ => otherwise(tarpath, event),
        },
        Phase::Stopped => go(Phase::Stopped, tarpath, ActionView::Abort { text: state_error_text() }),
    }
}

/// Whether a status code stands for success.
pub fn is_success(code: u16) -> (b: bool)
    ensures
        b == success(code),
{
    200 <= code && code < 300
}

/// The upload worker.
pub struct Uploader {
    tarpath: String,
    phase: Phase,
}

impl Uploader {
    /// What the worker is waiting for.
    pub closed spec fn phase(&self) -> Phase {
        self.phase
    }

    /// The path of the bundle that the worker is to send.
    pub closed spec fn tarpath(&self) -> Seq<char> {
        self.tarpath@
    }

    /// A worker for the bundle at `tarpath`, not yet started.
    pub fn new(tarpath: String) -> (r: Result<Uploader, WorkerError>)
        ensures
            r matches Ok(u) && u.phase() == Phase::Idle && u.tarpath() == tarpath@,
    {
        Ok(Uploader { tarpath, phase: Phase::Idle })
    }

    /// What the worker is waiting for.
    pub fn current_phase(&self) -> (p: Phase)
        ensures
            p == self.phase(),
    {
        self.phase
    }

    /// The state that the worker is in.
    pub fn state(&self) -> (s: WorkerState)
        ensures
            s == self.phase().state(),
    {
        self.phase.to_state()
    }

    fn fail(&mut self, error: WorkerError) -> (a: Action)
        ensures
            final(self).phase() == Phase::Recovering,
            final(self).tarpath() == old(self).tarpath(),
            a@ == fail(old(self).tarpath(), error.text()).action,
    {
        self.phase = Phase::Recovering;
        let text = error.message();
        Action::Send(Response::Error { err: chain("run error: ", text.as_str()) })
    }

    fn upload_failed(&mut self, error: WorkerError) -> (a: Action)
        ensures
            final(self).phase() == Phase::Reporting,
            final(self).tarpath() == old(self).tarpath(),
            a@ == upload_failed(old(self).tarpath(), error.text()).action,
    {
        self.phase = Phase::Reporting;
        Action::Send(Response::Error { err: error.message() })
    }

    fn otherwise(&mut self, event: &Event) -> (a: Action)
        ensures
            final(self).phase() == otherwise(old(self).tarpath(), event@).phase,
            final(self).tarpath() == old(self).tarpath(),
            a@ == otherwise(old(self).tarpath(), event@).action,
    {
        match event {
            Event::Failed(m) => self.fail(WorkerError::Host(m.clone())),
            _ => self.fail(WorkerError::State),
        }
    }

    fn go(&mut self, phase: Phase, action: Action) -> (a: Action)
        ensures
            final(self).phase() == phase,
            final(self).tarpath() == old(self).tarpath(),
            a == action,
    {
        self.phase = phase;
        action
    }

    /// Takes the result of the action asked for last and says what to do
    /// next.
    pub fn step(&mut self, event: &Event) -> (a: Action)
        ensures
            final(self).phase() == next(old(self).phase(), old(self).tarpath(), event@).phase,
            final(self).tarpath() == next(old(self).phase(), old(self).tarpath(), event@).tarpath,
            a@ == next(old(self).phase(), old(self).tarpath(), event@).action,
    {
        match self.phase {
            Phase::Idle => match event {
                Event::Start => {
                    let policy = uploader_policy(self.tarpath.as_str());
                    self.go(Phase::Confining, Action::Confine(policy))
                },
                _ => self.otherwise(event),
            },
            Phase::Confining => match event {
                Event::Done => self.go(Phase::ReadingControl, Action::ReadControl),
                _ => self.otherwise(event),
            },
            Phase::ReadingControl => match event {
                Event::Control(b) => {
                    if *b == 1 {
                        let path = self.tarpath.clone();
                        self.go(Phase::Opening, Action::Open(path))
                    } else if *b == 2 {
                        self.tarpath = clean_tar_path(self.tarpath.as_str());
                        self.phase = Phase::Opening;
                        Action::Open(self.tarpath.clone())
                    } else {
                        self.go(Phase::Draining, Action::Receive)
                    }
                },
                _ => self.otherwise(event),
            },
            Phase::Opening => match event {
                Event::Opened => self.go(Phase::Receiving, Action::Receive),
                _ => self.otherwise(event),
            },
            Phase::Receiving => match event {
                Event::Request(Request::Upload(u)) => match &u.network {
                    Some(n) => {
                        let base = trim_end_matches(n.url.as_str(), "/");
                        proof {
                            reveal_strlit("/");
                            assert("/"@ =~= slash());
                        }
                        let url = join(base.as_str(), u.id.as_str());
                        let krb_service_name = if n.krb_service_name.as_str().unicode_len() > 0 {
                            Some(n.krb_service_name.clone())
                        } else {
                            None
                        };
                        self.go(Phase::Posting, Action::Post { url, krb_service_name })
                    },
                    None => self.upload_failed(WorkerError::BadRequest),
                },
                Event::Request(Request::End) => self.go(Phase::Ending, Action::Send(Response::End)),
                Event::Request(Request::Empty) => self.fail(WorkerError::BadRequest),
                _ => self.otherwise(event),
            },
            Phase::Posting => match event {
                Event::Status(code) => {
                    if is_success(*code) {
                        self.go(Phase::Acking, Action::Send(Response::Upload))
                    } else {
                        let number = to_decimal(*code as u64);
                        let detail = chain("Unknown status code ", number.as_str());
                        self.upload_failed(WorkerError::Upload(detail))
                    }
                },
                Event::Failed(m) => self.upload_failed(WorkerError::Host(m.clone())),
                _ => self.otherwise(event),
            },
            Phase::Acking => match event {
                Event::Done => self.go(Phase::Draining, Action::Receive),
                Event::Failed(m) => self.upload_failed(WorkerError::Host(m.clone())),
                _ => self.otherwise(event),
            },
            Phase::Reporting => match event {
                Event::Done => self.go(Phase::Draining, Action::Receive),
                _ => self.otherwise(event),
            },
            Phase::Ending => match event {
                Event::Done => self.go(Phase::Stopped, Action::Finish),
                _ => self.otherwise(event),
            },
            Phase::Recovering => match event {
                Event::Done => self.go(Phase::Draining, Action::Receive),
                Event::Failed(m) => self.go(
                    Phase::Stopped,
                    Action::Abort(WorkerError::Host(m.clone())),
                ),
                _ => self.go(Phase::Stopped, Action::Abort(WorkerError::State)),
            },
            Phase::Draining => match event {
                Event::Request(Request::End) => self.go(
                    Phase::Closing,
                    Action::Send(Response::End),
                ),
                Event::Request(Request::Empty) => self.fail(WorkerError::BadRequest),
                Event::Request(_) => self.go(
                    Phase::Rejecting,
                    Action::Send(
                        Response::Error { err: "bad request, waiting end".to_owned() },
                    ),
                ),
                _ => self.otherwise(event),
            },
            Phase::Rejecting => match event {
                Event::Done => self.go(Phase::Draining, Action::Receive),
                _ => self.otherwise(event),
            },
            Phase::Closing => match event {
                Event::Done => self.go(Phase::Stopped, Action::Finish),
                _ => self.otherwise(event),
            },
            Phase::Stopped => self.go(Phase::Stopped, Action::Abort(WorkerError::State)),
        }
    }

    /// Runs the worker over `events` in order, from where it stands, until it
    /// has ended or the events are used up, and hands back the actions it asked
    /// for, one for each event taken.
    pub fn main_loop(self, events: &Vec<Event>) -> (actions: Vec<Action>)
        ensures
            actions_view(actions@) == run(self.phase(), self.tarpath(), events_view(events@)),
    {
        let mut worker = self;
        let mut actions: Vec<Action> = Vec::new();
        let mut i: usize = 0;
        assert(events_view(events@).skip(0) =~= events_view(events@));
        assert(actions_view(actions@) =~= Seq::<ActionView>::empty());
        while i < events.len() && worker.phase != Phase::Stopped
            invariant
                i <= events.len(),
                run(self.phase(), self.tarpath(), events_view(events@)) == actions_view(actions@)
                    + run(worker.phase(), worker.tarpath(), events_view(events@).skip(i as int)),
            decreases events.len() - i,
        {
            let ghost rest = events_view(events@).skip(i as int);
            let ghost before = actions@;
            assert(rest[0] == events@[i as int]@);
            assert(rest.skip(1) =~= events_view(events@).skip(i + 1));
            let action = worker.step(&events[i]);
            actions.push(action);
            assert(actions_view(actions@) =~= actions_view(before) + seq![action@]);
            i = i + 1;
        }
        assert(run(worker.phase(), worker.tarpath(), events_view(events@).skip(i as int))
            =~= Seq::<ActionView>::empty());
        actions
    }
}

/// The events of a list, as the contracts see them.
pub open spec fn events_view(events: Seq<Event>) -> Seq<EventView> {
    Seq::new(events.len(), |i: int| events[i]@)
}

/// The actions of a list, as the contracts see them.
pub open spec fn actions_view(actions: Seq<Action>) -> Seq<ActionView> {
    Seq::new(actions.len(), |i: int| actions[i]@)
}

/// The actions that the machine asks for when it is given `events` in order:
/// one for each event, up to the event that ends the worker.
pub open spec fn run(phase: Phase, tarpath: Seq<char>, events: Seq<EventView>) -> Seq<ActionView>
    decreases events.len(),
{
    if events.len() == 0 || phase == Phase::Stopped {
        Seq::empty()
    } else {
        let t = next(phase, tarpath, events[0]);
        seq![t.action] + run(t.phase, t.tarpath, events.skip(1))
    }
}

/// The control byte decides what the worker opens: the bundle as given for 1,
/// the clean bundle beside it for 2, and nothing for any other value, where
/// the worker goes straight on to wait for the end.
pub proof fn lemma_control_byte(tarpath: Seq<char>, byte: u8)
    ensures
        byte == 1 ==> next(Phase::ReadingControl, tarpath, EventView::Control(byte)) == go(
            Phase::Opening,
            tarpath,
            ActionView::Open { path: tarpath },
        ),
        byte == 2 ==> next(Phase::ReadingControl, tarpath, EventView::Control(byte)) == go(
            Phase::Opening,
            clean_path_of(tarpath),
            ActionView::Open { path: clean_path_of(tarpath) },
        ),
        byte != 1 && byte != 2 ==> next(Phase::ReadingControl, tarpath, EventView::Control(byte))
            == go(Phase::Draining, tarpath, ActionView::Receive),
{
}

/// While it waits for the end the worker acknowledges the end and nothing
/// else: any other request is turned down with an error, after which the
/// worker reads the next request; the end is acknowledged, after which the
/// worker has ended.
pub proof fn lemma_drain(tarpath: Seq<char>, request: RequestView)
    ensures
        ({
            let t = next(Phase::Draining, tarpath, EventView::Request(request));
            &&& t.action is Send
            &&& t.action == ActionView::Send(ResponseView::End) <==> request is End
            &&& request is End ==> next(t.phase, t.tarpath, EventView::Done) == go(
                Phase::Stopped,
                tarpath,
                ActionView::Finish,
            )
            &&& !(request is End) ==> t.action->Send_0 is Error && next(
                t.phase,
                t.tarpath,
                EventView::Done,
            ) == go(Phase::Draining, tarpath, ActionView::Receive)
        }),
{
}

/// The worker opens a path only after its sandbox was applied, and only a
/// path that the sandbox lists: an open is asked for in answer to the control
/// byte alone, the control byte is asked for only once the sandbox is
/// reported as applied, and the sandbox asked for is the uploader's.
pub proof fn lemma_confined_before_open(phase: Phase, tarpath: Seq<char>, event: EventView)
    ensures
        ({
            let t = next(phase, tarpath, event);
            &&& t.action matches ActionView::Open { path } ==> phase == Phase::ReadingControl
                && uploader_allow_list(tarpath).contains(path)
            &&& t.action is ReadControl ==> phase == Phase::Confining && event is Done
            &&& t.action matches ActionView::Confine { allow_list, mode } ==> phase == Phase::Idle
                && allow_list == uploader_allow_list(tarpath) && mode == AccessMode::ReadOnly
        }),
{
    let list = uploader_allow_list(tarpath);
    assert(list[0] == tarpath);
    assert(list[1] == clean_path_of(tarpath));
}

/// The exchange is lock-step. Every response that the worker sends is final
/// and is sent from a phase that waits for its delivery; once it is
/// delivered, the worker reads the next request or has ended. A request is
/// taken only where one is awaited, and is answered by a response at once or,
/// for an upload, after the post.
pub proof fn lemma_lock_step(phase: Phase, tarpath: Seq<char>, event: EventView)
    ensures
        ({
            let t = next(phase, tarpath, event);
            &&& t.action matches ActionView::Send(r) ==> r.is_final() && t.phase.answering()
            &&& phase.answering() && event is Done ==> t.action is Receive || t.action is Finish
            &&& t.action is Receive ==> t.phase == Phase::Receiving || t.phase == Phase::Draining
            &&& (phase == Phase::Receiving || phase == Phase::Draining) && event is Request
                ==> t.action is Send || t.action is Post
            &&& t.action is Post ==> t.phase == Phase::Posting
            &&& phase == Phase::Posting ==> t.action is Send
        }),
{
}

/// A worker that waits for the end can always be ended: whatever went wrong
/// before, once the response under way is delivered, an end request is
/// acknowledged and the worker has ended.
pub proof fn lemma_can_always_end(phase: Phase, tarpath: Seq<char>)
    requires
        phase.state() == WorkerState::WaitEnd,
    ensures
        phase == Phase::Draining ==> run(
            phase,
            tarpath,
            seq![EventView::Request(RequestView::End), EventView::Done],
        ) == seq![ActionView::Send(ResponseView::End), ActionView::Finish],
        phase == Phase::Recovering || phase == Phase::Rejecting ==> run(
            phase,
            tarpath,
            seq![EventView::Done, EventView::Request(RequestView::End), EventView::Done],
        ) == seq![ActionView::Receive, ActionView::Send(ResponseView::End), ActionView::Finish],
        phase == Phase::Closing ==> run(phase, tarpath, seq![EventView::Done]) == seq![
            ActionView::Finish,
        ],
{
    reveal_with_fuel(run, 4);
    let end = EventView::Request(RequestView::End);
    let done = EventView::Done;
    let last = seq![done];
    assert(last.skip(1) =~= Seq::<EventView>::empty());
    assert(run(Phase::Closing, tarpath, last) =~= seq![ActionView::Finish]);
    let two = seq![end, done];
    assert(two.skip(1) =~= last);
    assert(run(Phase::Draining, tarpath, two) =~= seq![
        ActionView::Send(ResponseView::End),
        ActionView::Finish,
    ]);
    let three = seq![done, end, done];
    assert(three.skip(1) =~= two);
    assert(run(Phase::Recovering, tarpath, three) =~= seq![
        ActionView::Receive,
        ActionView::Send(ResponseView::End),
        ActionView::Finish,
    ]);
    assert(run(Phase::Rejecting, tarpath, three) =~= seq![
        ActionView::Receive,
        ActionView::Send(ResponseView::End),
        ActionView::Finish,
    ]);
}

/// A failed upload does not end the worker: whether the post failed or the
/// remote endpoint answered without success, the failure is reported to the
/// peer and the worker goes on to wait for the end.
pub proof fn lemma_upload_failure(tarpath: Seq<char>, event: EventView)
    requires
        event is Failed || (event matches EventView::Status(code) && !success(code)),
    ensures
        ({
            let t = next(Phase::Posting, tarpath, event);
            &&& t.phase == Phase::Reporting
            &&& t.action is Send && t.action->Send_0 is Error
            &&& next(t.phase, t.tarpath, EventView::Done) == go(
                Phase::Draining,
                tarpath,
                ActionView::Receive,
            )
        }),
{
}

/// The end is final: a worker that has ended stays ended, and a run takes no
/// event after it.
pub proof fn lemma_end_is_terminal(tarpath: Seq<char>, event: EventView, events: Seq<EventView>)
    ensures
        next(Phase::Stopped, tarpath, event).phase == Phase::Stopped,
        run(Phase::Stopped, tarpath, events) == Seq::<ActionView>::empty(),
{
}

/// Once the control byte has been answered, the worker asks for no sandbox,
/// no control byte and no file any more, whatever it is told.
pub proof fn lemma_init_is_left_for_good(
    phase: Phase,
    tarpath: Seq<char>,
    events: Seq<EventView>,
    k: int,
)
    requires
        phase != Phase::Idle,
        phase != Phase::Confining,
        phase != Phase::ReadingControl,
        0 <= k < run(phase, tarpath, events).len(),
    ensures
        !(run(phase, tarpath, events)[k] is Confine),
        !(run(phase, tarpath, events)[k] is ReadControl),
        !(run(phase, tarpath, events)[k] is Open),
    decreases events.len(),
{
    let t = next(phase, tarpath, events[0]);
    if k > 0 {
        lemma_init_is_left_for_good(t.phase, t.tarpath, events.skip(1), k - 1);
    }
}

/// The sandbox is asked for once, as the first action of a fresh worker, and
/// never again.
pub proof fn lemma_sandbox_applied_once(
    phase: Phase,
    tarpath: Seq<char>,
    events: Seq<EventView>,
    k: int,
)
    requires
        0 <= k < run(phase, tarpath, events).len(),
        run(phase, tarpath, events)[k] is Confine,
    ensures
        k == 0,
        phase == Phase::Idle,
        events[0] is Start,
    decreases events.len(),
{
    let t = next(phase, tarpath, events[0]);
    if k > 0 {
        lemma_sandbox_applied_once(t.phase, t.tarpath, events.skip(1), k - 1);
    }
}

/// The sandbox comes first. In a run of a fresh worker, a file is opened only
/// as the third action: after the first action asked for the uploader's
/// sandbox and the host reported it as applied, and only at a path on that
/// sandbox's list. Where the sandbox could not be applied, no file is opened
/// at all.
pub proof fn lemma_open_follows_confinement(tarpath: Seq<char>, events: Seq<EventView>, k: int)
    requires
        0 <= k < run(Phase::Idle, tarpath, events).len(),
        run(Phase::Idle, tarpath, events)[k] is Open,
    ensures
        k == 2,
        events.len() > 2,
        events[0] is Start,
        events[1] is Done,
        run(Phase::Idle, tarpath, events)[0] == (ActionView::Confine {
            allow_list: uploader_allow_list(tarpath),
            mode: AccessMode::ReadOnly,
        }),
        uploader_allow_list(tarpath).contains(run(Phase::Idle, tarpath, events)[k]->path),
{
    let list = uploader_allow_list(tarpath);
    assert(list[0] == tarpath);
    assert(list[1] == clean_path_of(tarpath));
    let r0 = run(Phase::Idle, tarpath, events);
    let t0 = next(Phase::Idle, tarpath, events[0]);
    let rest0 = events.skip(1);
    let r1 = run(t0.phase, t0.tarpath, rest0);
    assert(r0 == seq![t0.action] + r1);
    if k == 0 {
    } else if !(events[0] is Start) {
        assert(r0[k] == r1[k - 1]);
        lemma_init_is_left_for_good(t0.phase, t0.tarpath, rest0, k - 1);
    } else {
        assert(r0[k] == r1[k - 1]);
        let t1 = next(t0.phase, t0.tarpath, rest0[0]);
        let rest1 = rest0.skip(1);
        let r2 = run(t1.phase, t1.tarpath, rest1);
        assert(r1 == seq![t1.action] + r2);
        assert(rest0[0] == events[1]);
        if k == 1 {
        } else if !(events[1] is Done) {
            assert(r1[k - 1] == r2[k - 2]);
            lemma_init_is_left_for_good(t1.phase, t1.tarpath, rest1, k - 2);
        } else {
            assert(r1[k - 1] == r2[k - 2]);
            let t2 = next(t1.phase, t1.tarpath, rest1[0]);
            let rest2 = rest1.skip(1);
            let r3 = run(t2.phase, t2.tarpath, rest2);
            assert(r2 == seq![t2.action] + r3);
            assert(rest1[0] == events[2]);
            if k > 2 {
                assert(r2[k - 2] == r3[k - 3]);
                lemma_init_is_left_for_good(t2.phase, t2.tarpath, rest2, k - 3);
            }
        }
    }
}

} // verus!
