//! Runs of the matcher: what holds of the table after a whole sequence of
//! messages, taken one at a time in the order they arrived.

use crate::actor_party_matcher::{
    fired_on, resp_to, table_after, table_after_all, Pair, RequestMsg, RespMsg, Waiting,
};
use tokio::sync::oneshot::Sender;
use vstd::prelude::*;

verus! {

/// No message of `msgs` is about `id`.
pub open spec fn none_about(msgs: Seq<RequestMsg>, id: Seq<char>) -> bool {
    forall|i: int| 0 <= i < msgs.len() ==> (#[trigger] msgs[i]).about() != id
}

/// Two tables agree on `id`: both have no entry there, or both the same.
pub open spec fn same_at(a: Waiting, b: Waiting, id: Seq<char>) -> bool {
    &&& a.contains_key(id) == b.contains_key(id)
    &&& a.contains_key(id) ==> a[id] == b[id]
}

/// Message `i` of `msgs` is a check-in under `id` that found nobody waiting,
/// and no later message is about `id`: it is still unanswered.
pub open spec fn unanswered_at(msgs: Seq<RequestMsg>, i: int, id: Seq<char>) -> bool {
    &&& 0 <= i < msgs.len()
    &&& msgs[i] is CheckIn
    &&& msgs[i].about() == id
    &&& !table_after_all(Waiting::empty(), msgs.take(i)).contains_key(id)
    &&& forall|j: int| i < j < msgs.len() ==> (#[trigger] msgs[j]).about() != id
}

/// A message about one id leaves the entries of every other id alone.
pub proof fn lemma_other_id_untouched(table: Waiting, msg: RequestMsg, id: Seq<char>)
    requires
        msg.about() != id,
    ensures
        same_at(table_after(table, msg), table, id),
{
}

/// The matcher fires sinks on a check-in that finds an entry under its own
/// id, and then only: it fires the sink of that entry and the one that the
/// check-in brought, and the entry is gone from the table afterwards. So a
/// parked sink is fired at most once, by the next check-in under its id, and
/// never by a check-out or by a message about another id.
pub proof fn lemma_fired_sink_leaves_table(table: Waiting, msg: RequestMsg)
    ensures
        fired_on(table, msg) is Some <==> msg is CheckIn && table.contains_key(msg.about()),
        fired_on(table, msg) matches Some(pair) ==> {
            &&& pair.waiting == table[msg.about()]
            &&& pair.incoming == msg->tx_resp
            &&& !table_after(table, msg).contains_key(msg.about())
        },
        fired_on(table, msg) is Some <==> resp_to(table, msg) == Some(RespMsg::OtherPartyReady),
{
}

/// Messages about other ids leave the entry under `id` as it was, however
/// many of them there are.
pub proof fn lemma_others_leave_entry(table: Waiting, msgs: Seq<RequestMsg>, id: Seq<char>)
    requires
        none_about(msgs, id),
    ensures
        same_at(table_after_all(table, msgs), table, id),
    decreases msgs.len(),
{
    if msgs.len() > 0 {
        let before = msgs.drop_last();
        assert forall|i: int| 0 <= i < before.len() implies (#[trigger] before[i]).about()
            != id by {
            assert(before[i] == msgs[i]);
        }
        lemma_others_leave_entry(table, before, id);
        lemma_other_id_untouched(table_after_all(table, before), msgs.last(), id);
    }
}

/// Exactly-once match. With nobody waiting under an id, the first check-in
/// under it is parked; the next one under the same id, whatever happened to
/// other ids in between, brings exactly these two sinks together and takes
/// the entry out; and a third one, again whatever happened to other ids,
/// finds nobody and is parked like the first: no stale match.
pub proof fn lemma_match_is_exactly_once(
    table: Waiting,
    first: RequestMsg,
    between: Seq<RequestMsg>,
    second: RequestMsg,
    later: Seq<RequestMsg>,
    third: RequestMsg,
)
    requires
        first is CheckIn,
        second is CheckIn,
        third is CheckIn,
        first.about() == second.about(),
        first.about() == third.about(),
        !table.contains_key(first.about()),
        none_about(between, first.about()),
        none_about(later, first.about()),
    ensures
        ({
            let parked = table_after_all(table_after(table, first), between);
            let paired = table_after_all(table_after(parked, second), later);
            &&& resp_to(table, first) == Some(RespMsg::NoOtherPartyWaiting)
            &&& fired_on(table, first) is None
            &&& resp_to(parked, second) == Some(RespMsg::OtherPartyReady)
            &&& fired_on(parked, second) == Some(
                Pair { waiting: first->tx_resp, incoming: second->tx_resp },
            )
            &&& !table_after(parked, second).contains_key(first.about())
            &&& resp_to(paired, third) == Some(RespMsg::NoOtherPartyWaiting)
            &&& fired_on(paired, third) is None
            &&& table_after(paired, third)[first.about()] == third->tx_resp
        }),
{
    let id = first.about();
    let parked = table_after_all(table_after(table, first), between);
    lemma_others_leave_entry(table_after(table, first), between, id);
    lemma_others_leave_entry(table_after(parked, second), later, id);
}

/// A sink parked under `id` stays put while messages about other ids pass:
/// the run ends in the table it would have ended in without the entry, plus
/// the entry.
pub proof fn lemma_parked_entry_rides_along(
    table: Waiting,
    id: Seq<char>,
    sink: Sender<()>,
    msgs: Seq<RequestMsg>,
)
    requires
        none_about(msgs, id),
    ensures
        table_after_all(table.insert(id, sink), msgs) == table_after_all(table, msgs).insert(
            id,
            sink,
        ),
    decreases msgs.len(),
{
    if msgs.len() > 0 {
        let before = msgs.drop_last();
        let msg = msgs.last();
        assert forall|i: int| 0 <= i < before.len() implies (#[trigger] before[i]).about()
            != id by {
            assert(before[i] == msgs[i]);
        }
        lemma_parked_entry_rides_along(table, id, sink, before);
        let without = table_after_all(table, before);
        assert(msg == msgs[msgs.len() - 1]);
        assert(msg.about() != id);
        assert(table_after(without.insert(id, sink), msg) =~= table_after(without, msg).insert(
            id,
            sink,
        ));
    } else {
        assert(table_after_all(table.insert(id, sink), msgs) =~= table.insert(id, sink));
    }
}

/// Garbage collection on timeout. A check-in that nobody answered, followed
/// by its check-out, leaves no trace: whatever passed for other ids in
/// between, the table is the one that those messages alone would have left,
/// so a fresh check-in under the same id finds nobody waiting.
pub proof fn lemma_checked_out_id_is_fresh(
    table: Waiting,
    check_in: RequestMsg,
    between: Seq<RequestMsg>,
    check_out: RequestMsg,
    again: RequestMsg,
)
    requires
        check_in is CheckIn,
        check_out is CheckOut,
        again is CheckIn,
        check_in.about() == check_out.about(),
        check_in.about() == again.about(),
        !table.contains_key(check_in.about()),
        none_about(between, check_in.about()),
    ensures
        ({
            let cleaned = table_after(
                table_after_all(table_after(table, check_in), between),
                check_out,
            );
            &&& cleaned == table_after_all(table, between)
            &&& !cleaned.contains_key(check_in.about())
            &&& resp_to(cleaned, again) == Some(RespMsg::NoOtherPartyWaiting)
            &&& fired_on(cleaned, again) is None
        }),
{
    let id = check_in.about();
    lemma_parked_entry_rides_along(table, id, check_in->tx_resp, between);
    lemma_others_leave_entry(table, between, id);
    let plain = table_after_all(table, between);
    assert(plain.insert(id, check_in->tx_resp).remove(id) =~= plain);
}

/// Idempotent check-out. A check-out under an id with no entry changes
/// nothing, fires nothing and gets no answer; so a second check-out after a
/// first does no more than the first did.
pub proof fn lemma_check_out_is_idempotent(table: Waiting, check_out: RequestMsg)
    requires
        check_out is CheckOut,
    ensures
        !table.contains_key(check_out.about()) ==> table_after(table, check_out) == table,
        table_after(table_after(table, check_out), check_out) == table_after(table, check_out),
        fired_on(table, check_out) is None,
        resp_to(table, check_out) is None,
{
    let id = check_out.about();
    if !table.contains_key(id) {
        assert(table.remove(id) =~= table);
    }
    assert(table.remove(id).remove(id) =~= table.remove(id));
}

/// The engine invariant. Start with nobody waiting and let the matcher take
/// any messages. Then an id has an entry exactly when some check-in under it
/// is still unanswered: it found nobody waiting, and since then no message
/// was about that id (no counterpart matched it, no check-out dropped it).
/// The entry holds the sink of that check-in. The table is finite, and as a
/// map it has at most one entry for each id.
pub proof fn lemma_entries_are_unanswered_check_ins(msgs: Seq<RequestMsg>, id: Seq<char>)
    ensures
        table_after_all(Waiting::empty(), msgs).dom().finite(),
        table_after_all(Waiting::empty(), msgs).contains_key(id) <==> exists|i: int|
            unanswered_at(msgs, i, id),
        forall|i: int| #[trigger]
            unanswered_at(msgs, i, id) ==> table_after_all(Waiting::empty(), msgs)[id]
                == msgs[i]->tx_resp,
    decreases msgs.len(),
{
    let now = table_after_all(Waiting::empty(), msgs);
    if msgs.len() == 0 {
        assert(!now.contains_key(id));
    } else {
        let before = msgs.drop_last();
        let msg = msgs.last();
        let last = msgs.len() - 1;
        let then = table_after_all(Waiting::empty(), before);
        lemma_entries_are_unanswered_check_ins(before, id);
        assert(msgs.take(last) =~= before);
        assert(msg == msgs[last]);
        assert forall|i: int| 0 <= i < last implies #[trigger] msgs.take(i) == before.take(i) by {
            assert(msgs.take(i) =~= before.take(i));
        }
        assert forall|i: int| 0 <= i < last implies (#[trigger] unanswered_at(msgs, i, id) <==> (
        unanswered_at(before, i, id) && msg.about() != id)) by {
            assert(msgs.take(i) == before.take(i));
            assert(msgs[i] == before[i]);
            if unanswered_at(msgs, i, id) {
                assert(msgs[last].about() != id);
                assert forall|j: int| i < j < before.len() implies (#[trigger] before[j]).about()
                    != id by {
                    assert(before[j] == msgs[j]);
                }
            }
            if unanswered_at(before, i, id) && msg.about() != id {
                assert forall|j: int| i < j < msgs.len() implies (#[trigger] msgs[j]).about()
                    != id by {
                    if j < last {
                        assert(msgs[j] == before[j]);
                    }
                }
            }
        }
        if msg.about() != id {
            lemma_other_id_untouched(then, msg, id);
            if now.contains_key(id) {
                let i = choose|i: int| unanswered_at(before, i, id);
                assert(unanswered_at(msgs, i, id));
            }
        } else {
            if now.contains_key(id) {
                assert(unanswered_at(msgs, last, id));
            }
        }
    }
}

} // verus!
