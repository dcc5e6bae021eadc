//! The life of one wait request: check in with the matcher, wait for the
//! counterpart or for the deadline, and on timeout check out again.
//!
//! The request itself never waits or sends. It says what is to be done next
//! and is told what came of it; whoever drives it performs the waiting and
//! the sending.

use crate::actor_party_matcher::RequestMsg;
use tokio::sync::oneshot::Receiver;
use vstd::prelude::*;

verus! {

/// How long a request waits for its counterpart, in seconds.
pub const WAIT_DEADLINE_SECS: u64 = 10;

/// Status of a reply to a matched request.
pub const STATUS_OK: u16 = 200;

/// Status of a reply to a request whose counterpart did not come in time.
pub const STATUS_REQUEST_TIMEOUT: u16 = 408;

/// Status of a reply to a request that failed inside the service.
pub const STATUS_INTERNAL_SERVER_ERROR: u16 = 500;

/// Why a wait request did not end in a match.
#[derive(Debug, PartialEq, Eq)]
pub enum HandlerErr {
    /// The reply could not be put together; the text says why.
    Http(String),
    /// A message could not be handed to the matcher; the text says why.
    Sender(String),
    /// No counterpart came before the deadline.
    Timeout,
}

/// A reply in plain values: status, content type where the reply sets one,
/// and body.
#[derive(Debug, PartialEq, Eq)]
pub struct Reply {
    pub status: u16,
    pub content_type: Option<String>,
    pub body: String,
}

/// A reply as contracts see it.
pub struct ReplyView {
    pub status: u16,
    pub content_type: Option<Seq<char>>,
    pub body: Seq<char>,
}

impl View for Reply {
    type V = ReplyView;

    open spec fn view(&self) -> ReplyView {
        ReplyView {
            status: self.status,
            content_type: match self.content_type {
                Some(content_type) => Some(content_type@),
                None => None,
            },
            body: self.body@,
        }
    }
}

/// The reply to a matched request: an event stream with one `ping` event
/// that says that the other party is ready.
pub open spec fn ready_reply() -> ReplyView {
    ReplyView {
        status: STATUS_OK,
        content_type: Some("text/event-stream"@),
        body: "event: ping\ndata: {\"message\":\"Other party is ready\"}\n\n"@,
    }
}

/// The reply to a health probe.
pub open spec fn health_reply() -> ReplyView {
    ReplyView { status: STATUS_OK, content_type: None, body: "ok"@ }
}

/// The reply that tells of `err`: a timeout says so in its own words, any
/// other failure shows nothing of its cause.
pub open spec fn error_reply(err: HandlerErr) -> ReplyView {
    match err {
        HandlerErr::Timeout => ReplyView {
            status: STATUS_REQUEST_TIMEOUT,
            content_type: None,
            body: err.text(),
        },
        _ => ReplyView {
            status: STATUS_INTERNAL_SERVER_ERROR,
            content_type: None,
            body: "INTERNAL SERVER ERROR"@,
        },
    }
}

impl Reply {
    /// The reply to a health probe.
    pub fn health() -> (reply: Reply)
        ensures
            reply@ == health_reply(),
    {
        Reply { status: STATUS_OK, content_type: None, body: "ok".to_owned() }
    }

    /// The reply to a matched request.
    pub fn ready() -> (reply: Reply)
        ensures
            reply@ == ready_reply(),
    {
        Reply {
            status: STATUS_OK,
            content_type: Some("text/event-stream".to_owned()),
            body: "event: ping\ndata: {\"message\":\"Other party is ready\"}\n\n".to_owned(),
        }
    }
}

impl HandlerErr {
    /// The error in words.
    pub open spec fn text(self) -> Seq<char> {
        match self {
            HandlerErr::Http(detail) => "HandlerErr: "@ + detail@,
            HandlerErr::Sender(detail) => "Failed sending Request to state actor: "@ + detail@,
            HandlerErr::Timeout => "Timeout: request elapsed 10s"@,
        }
    }

    /// The error in words.
    pub fn to_string(&self) -> (text: String)
        ensures
            text@ == self.text(),
    {
        match self {
            HandlerErr::Http(detail) => "HandlerErr: ".to_owned().concat(detail.as_str()),
            HandlerErr::Sender(detail) => "Failed sending Request to state actor: ".to_owned().concat(
                detail.as_str(),
            ),
            HandlerErr::Timeout => "Timeout: request elapsed 10s".to_owned(),
        }
    }

    /// The reply that tells the caller of this error.
    pub fn into_response(self) -> (reply: Reply)
        ensures
            reply@ == error_reply(self),
    {
        match self {
            HandlerErr::Timeout => Reply {
                status: STATUS_REQUEST_TIMEOUT,
                content_type: None,
                body: self.to_string(),
            },
            _ => Reply {
                status: STATUS_INTERNAL_SERVER_ERROR,
                content_type: None,
                body: "INTERNAL SERVER ERROR".to_owned(),
            },
        }
    }
}

/// Where a wait request stands.
#[derive(Clone, Copy, Debug, PartialEq, Eq, Structural)]
pub enum Phase {
    /// The check-in has been made up and is on its way to the matcher.
    Created,
    /// The matcher has the check-in; the request waits for its counterpart.
    AwaitingMatch,
    /// The deadline came first; the check-out is on its way to the matcher.
    CheckingOut,
    /// The counterpart came. Final.
    Matched,
    /// The deadline came first and the matcher has the check-out. Final.
    TimedOut,
    /// A message could not be handed to the matcher. Final.
    Failed,
}

/// What came of the step that a request asked for.
#[derive(Debug, PartialEq, Eq)]
pub enum Event {
    /// The matcher's inbox took the message.
    Submitted,
    /// The matcher's inbox did not take the message; the text says why.
    SubmitFailed(String),
    /// The receiver fired before the deadline.
    Signalled,
    /// The deadline elapsed before the receiver fired.
    DeadlineElapsed,
}

/// What a request asks to be done next.
#[derive(Debug)]
pub enum Action {
    /// Hand this message to the matcher and tell whether its inbox took it.
    Submit(RequestMsg),
    /// Wait until the receiver fires or `deadline_secs` seconds have passed,
    /// whichever comes first, and tell which it was.
    Race { deadline_secs: u64 },
    /// The request is over; this is how it ended.
    Finish(Result<Reply, HandlerErr>),
    /// The event was not one that the request was waiting for; nothing
    /// changed and nothing is to be done.
    Ignore,
}

impl Phase {
    /// A final phase is never left.
    pub open spec fn spec_is_final(self) -> bool {
        self is Matched || self is TimedOut || self is Failed
    }

    /// Whether the request is over.
    #[verifier::when_used_as_spec(spec_is_final)]
    pub fn is_final(self) -> (over: bool)
        ensures
            over == self.spec_is_final(),
    {
        match self {
            Phase::Matched | Phase::TimedOut | Phase::Failed => true,
            _ => false,
        }
    }
}

/// The phase that `event` leads to from `phase`. An event that the phase
/// does not wait for leaves it as it is.
pub open spec fn phase_after(phase: Phase, event: Event) -> Phase {
    match (phase, event) {
        (Phase::Created, Event::Submitted) => Phase::AwaitingMatch,
        (Phase::Created, Event::SubmitFailed(_)) => Phase::Failed,
        (Phase::AwaitingMatch, Event::Signalled) => Phase::Matched,
        (Phase::AwaitingMatch, Event::DeadlineElapsed) => Phase::CheckingOut,
        (Phase::CheckingOut, Event::Submitted) => Phase::TimedOut,
        (Phase::CheckingOut, Event::SubmitFailed(_)) => Phase::Failed,
        _ => phase,
    }
}

/// The phase that a request ends in when `events` reach it one after the
/// other, starting in `phase`.
pub open spec fn phase_after_all(phase: Phase, events: Seq<Event>) -> Phase
    decreases events.len(),
{
    if events.len() == 0 {
        phase
    } else {
        phase_after(phase_after_all(phase, events.drop_last()), events.last())
    }
}

/// Whether `action` is what a request under `id`, with a deadline of
/// `deadline_secs`, asks for when `event` reaches it in `phase`.
pub open spec fn action_fits(
    phase: Phase,
    event: Event,
    id: Seq<char>,
    deadline_secs: u64,
    action: Action,
) -> bool {
    match (phase, event) {
        (Phase::Created, Event::Submitted) => action == (Action::Race { deadline_secs }),
        (Phase::Created, Event::SubmitFailed(reason)) | (
            Phase::CheckingOut,
            Event::SubmitFailed(reason),
        ) => {
            &&& action matches Action::Finish(Err(HandlerErr::Sender(detail)))
            &&& detail@ == reason@
        },
        (Phase::AwaitingMatch, Event::Signalled) => {
            &&& action matches Action::Finish(Ok(reply))
            &&& reply@ == ready_reply()
        },
        (Phase::AwaitingMatch, Event::DeadlineElapsed) => {
            &&& action matches Action::Submit(RequestMsg::CheckOut { id: leaving })
            &&& leaving@ == id
        },
        (Phase::CheckingOut, Event::Submitted) => action == Action::Finish(
            Err(HandlerErr::Timeout),
        ),
        _ => action is Ignore,
    }
}

/// How far a request has come: its phase and, for the proofs only, every
/// event that has reached it since it was opened. The phase is at all times
/// the one that these events lead to.
struct Progress {
    phase: Phase,
    seen: Ghost<Seq<Event>>,
}

impl Progress {
    #[verifier::type_invariant]
    spec fn phase_follows_events(self) -> bool {
        self.phase == phase_after_all(Phase::Created, self.seen@)
    }

    /// The progress of a request that has just been opened.
    fn none() -> (progress: Progress)
        ensures
            progress.phase == Phase::Created,
            progress.seen@ == Seq::<Event>::empty(),
    {
        Progress { phase: Phase::Created, seen: Ghost(Seq::empty()) }
    }

    /// The progress after one more event.
    fn after(&self, event: &Event) -> (progress: Progress)
        ensures
            progress.phase == phase_after(self.phase, *event),
            progress.seen@ == self.seen@.push(*event),
    {
        proof {
            use_type_invariant(self);
            assert(self.seen@.push(*event).drop_last() =~= self.seen@);
        }
        let phase = match (self.phase, event) {
            (Phase::Created, Event::Submitted) => Phase::AwaitingMatch,
            (Phase::Created, Event::SubmitFailed(_)) => Phase::Failed,
            (Phase::AwaitingMatch, Event::Signalled) => Phase::Matched,
            (Phase::AwaitingMatch, Event::DeadlineElapsed) => Phase::CheckingOut,
            (Phase::CheckingOut, Event::Submitted) => Phase::TimedOut,
            (Phase::CheckingOut, Event::SubmitFailed(_)) => Phase::Failed,
            (phase, _) => phase,
        };
        Progress { phase, seen: Ghost(self.seen@.push(*event)) }
    }
}

/// One wait request, as its handler holds it: the id it waits under, the
/// receiving half of its notification pair, its deadline, and how far it
/// has come.
pub struct PendingRequest {
    id: String,
    rx_resp: Receiver<()>,
    deadline_secs: u64,
    progress: Progress,
}

impl PendingRequest {
    /// The id the request waits under.
    pub closed spec fn waits_under(&self) -> Seq<char> {
        self.id@
    }

    pub closed spec fn spec_phase(&self) -> Phase {
        self.progress.phase
    }

    /// The events that have reached the request since it was opened, first
    /// to last.
    pub closed spec fn seen(&self) -> Seq<Event> {
        self.progress.seen@
    }

    pub closed spec fn spec_deadline_secs(&self) -> u64 {
        self.deadline_secs
    }

    /// The receiving half that the request holds.
    pub closed spec fn holds(&self) -> Receiver<()> {
        self.rx_resp
    }

    /// The id the request waits under.
    pub fn id(&self) -> (id: &String)
        ensures
            id@ == self.waits_under(),
    {
        &self.id
    }

    /// Where the request stands: where the events that have reached it
    /// have led.
    #[verifier::when_used_as_spec(spec_phase)]
    pub fn phase(&self) -> (phase: Phase)
        ensures
            phase == self.spec_phase(),
            phase == phase_after_all(Phase::Created, self.seen()),
    {
        proof {
            use_type_invariant(&self.progress);
        }
        self.progress.phase
    }

    /// How long the request waits for its counterpart, in seconds.
    #[verifier::when_used_as_spec(spec_deadline_secs)]
    pub fn deadline_secs(&self) -> (secs: u64)
        ensures
            secs == self.spec_deadline_secs(),
    {
        self.deadline_secs
    }

    /// The receiving half of the notification pair, to wait on. What is
    /// done to it through the reference is done to the request's own.
    pub fn receiver(&mut self) -> (rx_resp: &mut Receiver<()>)
        ensures
            *rx_resp == old(self).holds(),
            final(self).holds() == *final(rx_resp),
            final(self).waits_under() == old(self).waits_under(),
            final(self).phase() == old(self).phase(),
            final(self).seen() == old(self).seen(),
            final(self).deadline_secs() == old(self).deadline_secs(),
    {
        &mut self.rx_resp
    }

    /// Opens a request under `id`: makes a fresh notification pair, keeps
    /// the receiving half, and asks for the check-in that carries the
    /// sending half to be handed to the matcher.
    pub fn open(id: String) -> (opened: (PendingRequest, Action))
        ensures
            opened.0.waits_under() == id@,
            opened.0.phase() == Phase::Created,
            opened.0.seen() == Seq::<Event>::empty(),
            opened.0.deadline_secs() == WAIT_DEADLINE_SECS,
            opened.1 matches Action::Submit(RequestMsg::CheckIn { id: arriving, .. })
                && arriving@ == id@,
    {
        let (tx_resp, rx_resp) = tokio::sync::oneshot::channel::<()>();
        let check_in = RequestMsg::CheckIn { id: id.clone(), tx_resp };
        let request = PendingRequest {
            id,
            rx_resp,
            deadline_secs: WAIT_DEADLINE_SECS,
            progress: Progress::none(),
        };
        (request, Action::Submit(check_in))
    }

    /// Tells the request what came of the step it asked for, and learns
    /// what it asks for next.
    pub fn on_event(&mut self, event: Event) -> (action: Action)
        ensures
            final(self).phase() == phase_after(old(self).phase(), event),
            final(self).seen() == old(self).seen().push(event),
            final(self).phase() == phase_after_all(Phase::Created, final(self).seen()),
            final(self).waits_under() == old(self).waits_under(),
            final(self).deadline_secs() == old(self).deadline_secs(),
            final(self).holds() == old(self).holds(),
            action_fits(
                old(self).phase(),
                event,
                old(self).waits_under(),
                old(self).deadline_secs(),
                action,
            ),
    {
        let phase = self.progress.phase;
        let next = self.progress.after(&event);
        proof {
            use_type_invariant(&next);
        }
        self.progress = next;
        match (phase, event) {
            (Phase::Created, Event::Submitted) => Action::Race {
                deadline_secs: self.deadline_secs,
            },
            (Phase::AwaitingMatch, Event::Signalled) => Action::Finish(Ok(Reply::ready())),
            (Phase::AwaitingMatch, Event::DeadlineElapsed) => Action::Submit(
                RequestMsg::CheckOut { id: self.id.clone() },
            ),
            (Phase::CheckingOut, Event::Submitted) => Action::Finish(Err(HandlerErr::Timeout)),
            (Phase::Created, Event::SubmitFailed(reason)) | (
                Phase::CheckingOut,
                Event::SubmitFailed(reason),
            ) => Action::Finish(Err(HandlerErr::Sender(reason))),
            _ => Action::Ignore,
        }
    }
}

} // verus!
