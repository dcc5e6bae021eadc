//! The matching engine: one sequential actor that owns the table of waiting
//! requests and takes check-in and check-out messages one at a time.

use crate::table::Table;
use tokio::sync::oneshot::Sender;
use vstd::prelude::*;

verus! {

/// How many messages the matcher's inbox holds before senders have to wait.
pub const INBOX_CAPACITY: usize = 16;

/// What a request handler sends to the matcher.
#[derive(Debug)]
pub enum RequestMsg {
    /// A caller waits under `id`; `tx_resp` wakes it.
    CheckIn { id: String, tx_resp: Sender<()> },
    /// The caller under `id` gave up; its entry can go.
    CheckOut { id: String },
}

/// What the matcher answers to a check-in.
#[derive(Clone, Copy, Debug, PartialEq, Eq, Structural)]
pub enum RespMsg {
    /// Nobody waits under the id: the caller has to wait.
    NoOtherPartyWaiting,
    /// The counterpart waits under the id: both can go on.
    OtherPartyReady,
}

/// Two sinks that belong to one match: that of the request that waited and
/// that of the request that just checked in.
#[derive(Debug)]
pub struct Pair {
    pub waiting: Sender<()>,
    pub incoming: Sender<()>,
}

/// What the matcher did with one message.
#[derive(Clone, Copy, Debug, PartialEq, Eq, Structural)]
pub enum Handled {
    /// A check-in found nobody: its sink is parked in the table.
    Parked,
    /// A check-in found its counterpart: both sinks were fired. Each flag
    /// tells whether that sink's receiver was still there.
    Paired { waiting_reached: bool, incoming_reached: bool },
    /// A check-out; `was_waiting` tells whether there was an entry to drop.
    CheckedOut { was_waiting: bool },
}

/// The table as contracts see it: correlation id to sink.
pub type Waiting = Map<Seq<char>, Sender<()>>;

impl RequestMsg {
    /// The correlation id the message is about.
    pub open spec fn about(self) -> Seq<char> {
        match self {
            RequestMsg::CheckIn { id, .. } => id@,
            RequestMsg::CheckOut { id } => id@,
        }
    }
}

/// The table once the matcher has taken `msg`.
pub open spec fn table_after(table: Waiting, msg: RequestMsg) -> Waiting {
    match msg {
        RequestMsg::CheckIn { id, tx_resp } => if table.contains_key(id@) {
            table.remove(id@)
        } else {
            table.insert(id@, tx_resp)
        },
        RequestMsg::CheckOut { id } => table.remove(id@),
    }
}

/// The pair that a check-in under `id` with sink `tx_resp` brings together.
pub open spec fn pair_on(table: Waiting, id: Seq<char>, tx_resp: Sender<()>) -> Option<Pair> {
    if table.contains_key(id) {
        Some(Pair { waiting: table[id], incoming: tx_resp })
    } else {
        None
    }
}

/// The pair whose sinks the matcher fires on `msg`, if it fires any.
pub open spec fn fired_on(table: Waiting, msg: RequestMsg) -> Option<Pair> {
    match msg {
        RequestMsg::CheckIn { id, tx_resp } => pair_on(table, id@, tx_resp),
        RequestMsg::CheckOut { .. } => None,
    }
}

/// The matcher's answer to `msg`: a check-in learns whether its counterpart
/// was there, a check-out gets no answer.
pub open spec fn resp_to(table: Waiting, msg: RequestMsg) -> Option<RespMsg> {
    match msg {
        RequestMsg::CheckIn { id, .. } => if table.contains_key(id@) {
            Some(RespMsg::OtherPartyReady)
        } else {
            Some(RespMsg::NoOtherPartyWaiting)
        },
        RequestMsg::CheckOut { .. } => None,
    }
}

impl Handled {
    pub open spec fn spec_resp(self) -> Option<RespMsg> {
        match self {
            Handled::Parked => Some(RespMsg::NoOtherPartyWaiting),
            Handled::Paired { .. } => Some(RespMsg::OtherPartyReady),
            Handled::CheckedOut { .. } => None,
        }
    }

    /// The answer that goes with this outcome.
    #[verifier::when_used_as_spec(spec_resp)]
    pub fn resp(self) -> (resp: Option<RespMsg>)
        ensures
            resp == self.spec_resp(),
    {
        match self {
            Handled::Parked => Some(RespMsg::NoOtherPartyWaiting),
            Handled::Paired { .. } => Some(RespMsg::OtherPartyReady),
            Handled::CheckedOut { .. } => None,
        }
    }
}

/// The table once the matcher has taken all of `msgs`, first to last.
pub open spec fn table_after_all(table: Waiting, msgs: Seq<RequestMsg>) -> Waiting
    decreases msgs.len(),
{
    if msgs.len() == 0 {
        table
    } else {
        table_after(table_after_all(table, msgs.drop_last()), msgs.last())
    }
}

/// Taking one more message is one more step from where the run so far
/// has led.
pub proof fn lemma_one_more(msgs: Seq<RequestMsg>, msg: RequestMsg)
    ensures
        forall|table: Waiting| #[trigger]
            table_after_all(table, msgs.push(msg)) == table_after(
                table_after_all(table, msgs),
                msg,
            ),
{
    assert(msgs.push(msg).drop_last() =~= msgs);
}

/// The matcher's state: the table of waiting requests, owned by it alone.
///
/// Beside the table the matcher remembers, for the proofs only, every
/// message it has taken since it started. The table is at all times the one
/// that these messages lead to from an empty table.
pub struct ActorPartyMatcher {
    parties_waiting: Table,
    taken: Ghost<Seq<RequestMsg>>,
}

impl View for ActorPartyMatcher {
    type V = Waiting;

    closed spec fn view(&self) -> Waiting {
        self.parties_waiting@
    }
}

impl ActorPartyMatcher {
    #[verifier::type_invariant]
    spec fn table_follows_messages(self) -> bool {
        self.parties_waiting@ == table_after_all(Waiting::empty(), self.taken@)
    }

    /// The messages that the matcher has taken since it started, first to
    /// last.
    pub closed spec fn taken(&self) -> Seq<RequestMsg> {
        self.taken@
    }

    /// A matcher with nobody waiting, as it is when it starts.
    pub fn spawn() -> (actor: ActorPartyMatcher)
        ensures
            actor@ == Waiting::empty(),
            actor.taken() == Seq::<RequestMsg>::empty(),
    {
        ActorPartyMatcher { parties_waiting: Table::new(), taken: Ghost(Seq::empty()) }
    }

    /// How many requests wait.
    pub fn waiting_count(&self) -> (count: usize)
        ensures
            self@.dom().finite(),
            count == self@.len(),
            self@ == table_after_all(Waiting::empty(), self.taken()),
    {
        proof {
            use_type_invariant(self);
        }
        self.parties_waiting.len()
    }

    /// Whether a request waits under `id`.
    pub fn is_waiting(&self, id: &String) -> (found: bool)
        ensures
            found == self@.contains_key(id@),
            self@ == table_after_all(Waiting::empty(), self.taken()),
    {
        proof {
            use_type_invariant(self);
        }
        self.parties_waiting.contains(id)
    }

    /// Hands the table out to be worked on, with the messages taken so
    /// far; the matcher is as a fresh one until `settle` puts a table back.
    fn lend(&mut self) -> (lent: (Table, Ghost<Seq<RequestMsg>>))
        ensures
            lent.0@ == old(self)@,
            lent.1@ == old(self).taken(),
            lent.0@ == table_after_all(Waiting::empty(), lent.1@),
    {
        let mut now = ActorPartyMatcher::spawn();
        core::mem::swap(self, &mut now);
        proof {
            use_type_invariant(&now);
        }
        let ActorPartyMatcher { parties_waiting, taken } = now;
        (parties_waiting, taken)
    }

    /// Puts back a table, with the messages that lead to it.
    fn settle(&mut self, table: Table, taken: Ghost<Seq<RequestMsg>>)
        requires
            table@ == table_after_all(Waiting::empty(), taken@),
        ensures
            final(self)@ == table@,
            final(self).taken() == taken@,
    {
        *self = ActorPartyMatcher { parties_waiting: table, taken };
    }

    /// Registers a caller under `id`. If a request waits there already, its
    /// entry leaves the table and both sinks come back as a pair to fire;
    /// otherwise `tx_resp` is parked and nothing comes back.
    pub fn check_in(&mut self, id: String, tx_resp: Sender<()>) -> (pair: Option<Pair>)
        ensures
            final(self)@ == table_after(old(self)@, RequestMsg::CheckIn { id, tx_resp }),
            final(self).taken() == old(self).taken().push(RequestMsg::CheckIn { id, tx_resp }),
            final(self)@ == table_after_all(Waiting::empty(), final(self).taken()),
            pair == pair_on(old(self)@, id@, tx_resp),
    {
        let (mut table, Ghost(taken)) = self.lend();
        let ghost msg = RequestMsg::CheckIn { id, tx_resp };
        let pair = match table.remove(&id) {
            Some(waiting) => Some(Pair { waiting, incoming: tx_resp }),
            None => {
                table.insert(id, tx_resp);
                None
            },
        };
        proof {
            lemma_one_more(taken, msg);
            assert(table@ =~= table_after(old(self)@, msg));
        }
        self.settle(table, Ghost(taken.push(msg)));
        pair
    }

    /// Drops the entry under `id`, if there is one, without firing its sink.
    pub fn check_out(&mut self, id: String) -> (was_waiting: bool)
        ensures
            final(self)@ == table_after(old(self)@, RequestMsg::CheckOut { id }),
            final(self).taken() == old(self).taken().push(RequestMsg::CheckOut { id }),
            final(self)@ == table_after_all(Waiting::empty(), final(self).taken()),
            was_waiting == old(self)@.contains_key(id@),
    {
        let (mut table, Ghost(taken)) = self.lend();
        let ghost msg = RequestMsg::CheckOut { id };
        let was_waiting = table.remove(&id).is_some();
        proof {
            lemma_one_more(taken, msg);
        }
        self.settle(table, Ghost(taken.push(msg)));
        was_waiting
    }

    /// Takes one message. The table moves as `table_after` says. On a match
    /// the sinks of `fired_on` are fired, the waiting one first; a sink whose
    /// receiver is gone is reported in the outcome and is no error.
    pub fn handle(&mut self, msg: RequestMsg) -> (done: Handled)
        ensures
            final(self)@ == table_after(old(self)@, msg),
            final(self).taken() == old(self).taken().push(msg),
            final(self)@ == table_after_all(Waiting::empty(), final(self).taken()),
            match done {
                Handled::Parked => msg is CheckIn && !old(self)@.contains_key(msg.about()),
                Handled::Paired { .. } => msg is CheckIn && old(self)@.contains_key(msg.about()),
                Handled::CheckedOut { was_waiting } => msg is CheckOut && was_waiting == old(
                    self,
                )@.contains_key(msg.about()),
            },
            done.resp() == resp_to(old(self)@, msg),
    {
        match msg {
            RequestMsg::CheckIn { id, tx_resp } => match self.check_in(id, tx_resp) {
                Some(pair) => {
                    let waiting_reached = pair.waiting.send(()).is_ok();
                    let incoming_reached = pair.incoming.send(()).is_ok();
                    Handled::Paired { waiting_reached, incoming_reached }
                },
                None => Handled::Parked,
            },
            RequestMsg::CheckOut { id } => {
                let was_waiting = self.check_out(id);
                Handled::CheckedOut { was_waiting }
            },
        }
    }
}

} // verus!
