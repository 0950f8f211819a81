use crate::codec::{decode_client_message, encode_server_message, tag_with_sender};
use crate::msg::{ClientId, ClientMessage, DecodeError, ServerMessage};
use crate::registry::{queue_view, ClientRegistry};
use crate::wire::{spec_decode_client, spec_encode_server, spec_retag};
use vstd::prelude::*;

verus! {

// The per-connection lifecycle: Connecting -> Registered -> Streaming ->
// Closing -> Closed.  The decisions of each transition live here, over the
// registry model; the transport loops around them only read frames, write
// frames and hand the events in.

/// The process-wide allocator of identities: a monotonically increasing
/// counter, so an id is never reused even after its client disconnects.
pub struct ClientIdCounter {
    pub next_id: u32,
}

/// One allocation step of the counter: `id` is handed out and the counter
/// moves past it.
pub open spec fn alloc_step(before: u32, id: u32, after: u32) -> bool {
    id == before && after == before + 1
}

impl ClientIdCounter {
    pub fn new() -> (c: Self)
        ensures
            c.next_id == 0,
    {
        ClientIdCounter { next_id: 0 }
    }

    /// Hands out the next identity.
    pub fn allocate(&mut self) -> (id: ClientId)
        requires
            old(self).next_id < u32::MAX,
        ensures
            alloc_step(old(self).next_id, id, final(self).next_id),
            id == old(self).next_id,
            final(self).next_id == id + 1,
    {
        let id: u32 = self.next_id;
        self.next_id = self.next_id + 1;
        id
    }
}

proof fn lemma_counter_monotonic(states: Seq<u32>, ids: Seq<u32>, a: int, b: int)
    requires
        ids.len() + 1 == states.len(),
        forall|k: int| 0 <= k < ids.len() ==> alloc_step(states[k], ids[k], states[k + 1]),
        0 <= a <= b < states.len(),
    ensures
        states[a] + (b - a) <= states[b],
    decreases b - a,
{
    if a < b {
        lemma_counter_monotonic(states, ids, a + 1, b);
        assert(alloc_step(states[a], ids[a], states[a + 1]));
    }
}

/// Identity uniqueness: a run of sequential acceptances, each drawing from
/// the counter, yields pairwise distinct, strictly increasing ids.
/// `states` are the counter values observed before and after each
/// allocation; `ids` the identities handed out, in order.
pub proof fn lemma_sequential_ids_strictly_increase(states: Seq<u32>, ids: Seq<u32>)
    requires
        ids.len() + 1 == states.len(),
        forall|k: int| 0 <= k < ids.len() ==> alloc_step(states[k], ids[k], states[k + 1]),
    ensures
        forall|a: int, b: int| 0 <= a < b < ids.len() ==> ids[a] < ids[b],
{
    assert forall|a: int, b: int| 0 <= a < b < ids.len() implies ids[a] < ids[b] by {
        lemma_counter_monotonic(states, ids, a + 1, b);
        assert(alloc_step(states[a], ids[a], states[a + 1]));
        assert(alloc_step(states[b], ids[b], states[b + 1]));
    }
}

/// Every registered id was allocated before the counter's current value.
/// This is the coupling invariant between the registry and the counter; it
/// is what rules the pathological duplicate registration out.
pub open spec fn ids_below_counter(reg: ClientRegistry, counter: ClientIdCounter) -> bool {
    forall|i: int| 0 <= i < reg.entries@.len() ==> reg.entries@[i].id < counter.next_id
}

/// Connection acceptance (`Connecting -> Registered -> Streaming`): a fresh
/// id is allocated, the session is registered with an empty delivery queue,
/// `Init{id}` is delivered to the new session's own queue, and `Joined{id}`
/// is appended to every other member's queue, exactly once each.
pub fn session_connect(reg: &mut ClientRegistry, counter: &mut ClientIdCounter) -> (id: ClientId)
    requires
        old(reg).wf(),
        old(counter).next_id < u32::MAX,
        ids_below_counter(*old(reg), *old(counter)),
    ensures
        final(reg).wf(),
        ids_below_counter(*final(reg), *final(counter)),
        alloc_step(old(counter).next_id, id, final(counter).next_id),
        !old(reg).spec_contains(id),
        final(reg).entries@.len() == old(reg).entries@.len() + 1,
        final(reg).entries@[old(reg).entries@.len() as int].id == id,
        queue_view(final(reg).entries@[old(reg).entries@.len() as int].queue) == seq![
            spec_encode_server(ServerMessage::Init { id }),
        ],
        forall|i: int| 0 <= i < old(reg).entries@.len()
            ==> final(reg).entries@[i].id == old(reg).entries@[i].id,
        forall|i: int| 0 <= i < old(reg).entries@.len()
            ==> queue_view(final(reg).entries@[i].queue)
                == queue_view(old(reg).entries@[i].queue).push(
                    spec_encode_server(ServerMessage::Joined { id }),
                ),
{
    let id: ClientId = counter.allocate();
    let ghost reg0 = *reg;
    let fresh: bool = reg.register(id);
    proof {
        assert(fresh);
    }
    let ghost reg1 = *reg;
    let ghost n = reg0.entries@.len() as int;
    let init = encode_server_message(&ServerMessage::Init { id });
    let delivered: bool = reg.enqueue_to(id, &init);
    let ghost reg2 = *reg;
    proof {
        assert(delivered);
        // The new entry is the only one with this id, so it is the one the
        // delivery went to.
        let ix = reg1.index_of(id);
        assert(reg1.entries@[n].id == id);
        assert(0 <= ix < reg1.entries@.len() && reg1.entries@[ix].id == id);
        assert(ix == n);
        assert(queue_view(reg2.entries@[n].queue) =~= seq![
            spec_encode_server(ServerMessage::Init { id }),
        ]);
        assert(forall|i: int| 0 <= i < n ==> reg2.entries@[i] == reg0.entries@[i]);
    }
    let joined = encode_server_message(&ServerMessage::Joined { id });
    reg.broadcast_except(id, &joined);
    proof {
        assert(reg.entries@[n].id == id);
        assert(reg.entries@[n] == reg2.entries@[n]);
        assert forall|i: int| 0 <= i < n implies queue_view(reg.entries@[i].queue) == queue_view(
            reg0.entries@[i].queue,
        ).push(spec_encode_server(ServerMessage::Joined { id })) by {
            assert(reg2.entries@[i] == reg0.entries@[i]);
            assert(reg2.entries@[i].id != id);
        }
    }
    id
}

/// One inbound frame while `Streaming`: decode it, stamp the sender's id in
/// (`Move` becomes `PlayerMove`, `Kick` keeps its tag), and append the echo
/// to every other member's queue, exactly once each — never to the sender's.
/// A malformed frame changes nothing: the decode error is only returned, for
/// diagnostics.
pub fn session_handle_frame(reg: &mut ClientRegistry, sender: ClientId, frame: &[u8]) -> (r:
    Result<ClientMessage, DecodeError>)
    requires
        old(reg).wf(),
    ensures
        final(reg).wf(),
        r == spec_decode_client(frame@),
        r matches Err(_) ==> *final(reg) == *old(reg),
        r matches Ok(m) ==> {
            &&& final(reg).entries@.len() == old(reg).entries@.len()
            &&& forall|i: int| 0 <= i < old(reg).entries@.len()
                ==> final(reg).entries@[i].id == old(reg).entries@[i].id
            &&& forall|i: int| 0 <= i < old(reg).entries@.len() && old(reg).entries@[i].id
                != sender ==> queue_view(final(reg).entries@[i].queue)
                == queue_view(old(reg).entries@[i].queue).push(
                    spec_encode_server(spec_retag(sender, m)),
                )
            &&& forall|i: int| 0 <= i < old(reg).entries@.len() && old(reg).entries@[i].id
                == sender ==> final(reg).entries@[i] == old(reg).entries@[i]
        },
{
    match decode_client_message(frame) {
        Ok(m) => {
            let echo_msg = tag_with_sender(sender, &m);
            let echo = encode_server_message(&echo_msg);
            reg.broadcast_except(sender, &echo);
            Ok(m)
        },
        Err(e) => Err(e),
    }
}

/// Disconnect (`Closing -> Closed`): the session's entry is removed first,
/// then `Left{id}` is appended to every remaining member's queue, exactly
/// once each.  The departed id is absent from the registry afterwards.
pub fn session_disconnect(reg: &mut ClientRegistry, id: ClientId)
    requires
        old(reg).wf(),
    ensures
        final(reg).wf(),
        !final(reg).spec_contains(id),
        old(reg).spec_contains(id) ==> {
            let ix = old(reg).index_of(id);
            let gone = old(reg).entries@.remove(ix);
            &&& final(reg).entries@.len() == old(reg).entries@.len() - 1
            &&& forall|i: int| 0 <= i < gone.len() ==> final(reg).entries@[i].id == gone[i].id
            &&& forall|i: int| 0 <= i < gone.len()
                ==> queue_view(final(reg).entries@[i].queue) == queue_view(gone[i].queue).push(
                    spec_encode_server(ServerMessage::Left { id }),
                )
        },
        !old(reg).spec_contains(id) ==> {
            &&& final(reg).entries@.len() == old(reg).entries@.len()
            &&& forall|i: int| 0 <= i < old(reg).entries@.len()
                ==> final(reg).entries@[i].id == old(reg).entries@[i].id
            &&& forall|i: int| 0 <= i < old(reg).entries@.len()
                ==> queue_view(final(reg).entries@[i].queue)
                    == queue_view(old(reg).entries@[i].queue).push(
                        spec_encode_server(ServerMessage::Left { id }),
                    )
        },
{
    let ghost reg0 = *reg;
    reg.unregister(id);
    let ghost reg1 = *reg;
    let left = encode_server_message(&ServerMessage::Left { id });
    reg.broadcast_except(id, &left);
    proof {
        if reg0.spec_contains(id) {
            let ix = reg0.index_of(id);
            let gone = reg0.entries@.remove(ix);
            assert(reg1.entries@ == gone);
            assert forall|i: int| 0 <= i < gone.len() implies queue_view(reg.entries@[i].queue)
                == queue_view(gone[i].queue).push(
                spec_encode_server(ServerMessage::Left { id }),
            ) by {
                assert(reg1.entries@[i].id != id);
            }
        } else {
            assert(reg1 == reg0);
            assert forall|i: int| 0 <= i < reg0.entries@.len() implies queue_view(
                reg.entries@[i].queue,
            ) == queue_view(reg0.entries@[i].queue).push(
                spec_encode_server(ServerMessage::Left { id }),
            ) by {
                assert(reg1.entries@[i].id != id);
            }
        }
        assert forall|m: int| 0 <= m < reg.entries@.len() implies reg.entries@[m].id != id by {
            assert(reg.entries@[m].id == reg1.entries@[m].id);
        }
    }
}

} // verus!
