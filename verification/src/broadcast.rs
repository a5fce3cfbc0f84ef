//! The gossip engine: per-node broadcast state and the handlers that run the
//! protocol over it.

use vstd::prelude::*;

use crate::error::NodeError;
use crate::laws::{lemma_to_set_push, strictly_sorted};
use crate::message::{Body, BodyType, Message};
use crate::node::{bump_id, sat_inc, Node};

verus! {

/// One outbound broadcast awaiting its acknowledgment: where it went, under
/// which message id, which value it carried, and how many timer ticks it has
/// been waiting.
pub struct PendingSend {
    pub dest: String,
    pub msg_id: u64,
    pub value: i64,
    pub ticks_waiting: u64,
}

/// The mathematical content of one unacknowledged send.
pub struct PendingView {
    pub dest: Seq<char>,
    pub msg_id: u64,
    pub value: i64,
    pub ticks_waiting: u64,
}

impl View for PendingSend {
    type V = PendingView;

    open spec fn view(&self) -> PendingView {
        PendingView {
            dest: self.dest@,
            msg_id: self.msg_id,
            value: self.value,
            ticks_waiting: self.ticks_waiting,
        }
    }
}

impl DeepView for PendingSend {
    type V = PendingView;

    open spec fn deep_view(&self) -> PendingView {
        self@
    }
}

/// The gossip node: its identity, its neighbor set once assigned, the values
/// it knows, and the table of unacknowledged sends.
pub struct BroadcastNode {
    id: String,
    neighbors: Vec<String>,
    topology_assigned: bool,
    values: Vec<i64>,
    pending: Vec<PendingSend>,
    next_msg_id: u64,
}

/// The mathematical content of a gossip node's state.
pub struct NodeView {
    pub id: Seq<char>,
    pub neighbors: Seq<Seq<char>>,
    pub topology_assigned: bool,
    pub values: Seq<i64>,
    pub pending: Seq<PendingView>,
    pub next_msg_id: u64,
}

impl View for BroadcastNode {
    type V = NodeView;

    closed spec fn view(&self) -> NodeView {
        NodeView {
            id: self.id@,
            neighbors: self.neighbors.deep_view(),
            topology_assigned: self.topology_assigned,
            values: self.values@,
            pending: self.pending.deep_view(),
            next_msg_id: self.next_msg_id,
        }
    }
}

/// The internal invariant of a gossip node: the known values are held as a
/// strictly increasing sequence (so each value is held exactly once), and a
/// node without a topology has no neighbors.
pub open spec fn node_inv(s: NodeView) -> bool {
    &&& strictly_sorted(s.values)
    &&& (!s.topology_assigned ==> s.neighbors.len() == 0)
}

/// How many timer ticks an unacknowledged send may wait before the next
/// tick re-sends it.
pub const RETRY_TICKS: u64 = 2;

/// Whether an unacknowledged send has waited long enough that this tick
/// re-sends it.
pub open spec fn due_for_retry(e: PendingView) -> bool {
    e.ticks_waiting + 1 >= RETRY_TICKS
}

/// The unacknowledged sends that this tick re-sends, in table order.
pub open spec fn due_retries(p: Seq<PendingView>) -> Seq<PendingView>
    decreases p.len(),
{
    if p.len() == 0 {
        Seq::empty()
    } else {
        let rest = due_retries(p.drop_last());
        if due_for_retry(p.last()) {
            rest.push(p.last())
        } else {
            rest
        }
    }
}

/// The message id a counter starting at `base` hands out `k` steps later.
pub open spec fn id_at(base: u64, k: int) -> u64
    decreases k,
{
    if k <= 0 {
        base
    } else {
        sat_inc(id_at(base, k - 1))
    }
}

/// The neighbors a value is flooded to: all of them except the envelope's
/// origin, in neighbor-list order.
pub open spec fn fanout(neighbors: Seq<Seq<char>>, origin: Seq<char>) -> Seq<Seq<char>>
    decreases neighbors.len(),
{
    if neighbors.len() == 0 {
        Seq::empty()
    } else {
        let rest = fanout(neighbors.drop_last(), origin);
        if neighbors.last() != origin {
            rest.push(neighbors.last())
        } else {
            rest
        }
    }
}

/// The unacknowledged sends that remain once the acknowledgment from `peer`
/// correlated to `corr` has been applied.
pub open spec fn prune(p: Seq<PendingView>, peer: Seq<char>, corr: u64) -> Seq<PendingView>
    decreases p.len(),
{
    if p.len() == 0 {
        Seq::empty()
    } else {
        let rest = prune(p.drop_last(), peer, corr);
        if p.last().dest == peer && p.last().msg_id == corr {
            rest
        } else {
            rest.push(p.last())
        }
    }
}

/// The identity-to-neighbors pairs of a topology map, as character
/// sequences.
pub open spec fn topo_view(t: Seq<(String, Vec<String>)>) -> Seq<(Seq<char>, Seq<Seq<char>>)> {
    Seq::new(t.len(), |i: int| (t[i].0@, t[i].1.deep_view()))
}

/// The neighbor list a topology map assigns to `key`: the first pair under
/// that key, if any.
pub open spec fn topo_lookup(t: Seq<(Seq<char>, Seq<Seq<char>>)>, key: Seq<char>) -> Option<
    Seq<Seq<char>>,
>
    decreases t.len(),
{
    if t.len() == 0 {
        Option::None
    } else if t[0].0 == key {
        Option::Some(t[0].1)
    } else {
        topo_lookup(t.drop_first(), key)
    }
}

/// What a topology assignment did. The first assignment that names this
/// node takes effect and is acknowledged; one that does not name it is
/// refused; any assignment after the first is rejected outright, so that a
/// topology change cannot silently invalidate the unacknowledged sends
/// still in flight.
pub open spec fn topology_ens(
    pre: NodeView,
    post: NodeView,
    msg: Message,
    r: Result<Vec<Message>, NodeError>,
) -> bool {
    let t = topo_view(msg.body.tp->topology@);
    if pre.topology_assigned {
        r matches Err(e) && e == NodeError::AlreadyConfigured && post == pre
    } else {
        match topo_lookup(t, pre.id) {
            Option::None => r matches Err(e) && e == NodeError::NotInTopology && post == pre,
            Option::Some(nbrs) => {
                &&& r matches Ok(out)
                &&& out@.len() == 1
                &&& out@[0].src@ == pre.id
                &&& out@[0].dest@ == msg.src@
                &&& out@[0].body.msg_id == msg.body.msg_id
                &&& out@[0].body.in_reply_to == Some(msg.body.msg_id)
                &&& out@[0].body.tp is TopologyOk
                &&& post == (NodeView { neighbors: nbrs, topology_assigned: true, ..pre })
            },
        }
    }
}

/// What a read returned: one reply to the asker carrying the snapshot of
/// known values, in ascending order; the state is untouched.
pub open spec fn read_ens(s: NodeView, msg: Message, out: Seq<Message>) -> bool {
    &&& out.len() == 1
    &&& out[0].src@ == s.id
    &&& out[0].dest@ == msg.src@
    &&& out[0].body.msg_id == msg.body.msg_id
    &&& out[0].body.in_reply_to == Some(msg.body.msg_id)
    &&& out[0].body.tp matches BodyType::ReadOk { messages } && messages@ == s.values
}

/// What merging one anti-entropy batch did: a plain union into the known
/// set; nothing is sent, nothing else moves.
pub open spec fn batch_ens(pre: NodeView, post: NodeView, msg: Message) -> bool {
    &&& post.values.to_set() == pre.values.to_set().union(
        msg.body.tp->BatchBroadcast_messages@.to_set(),
    )
    &&& post.id == pre.id
    &&& post.neighbors == pre.neighbors
    &&& post.topology_assigned == pre.topology_assigned
    &&& post.pending == pre.pending
    &&& post.next_msg_id == pre.next_msg_id
}

/// What ingesting one broadcast did: the value joined the known set, the
/// sender got its acknowledgment at once, and the value went out again to
/// every neighbor except the origin, each forward recorded as an
/// unacknowledged send under its fresh message id.
pub open spec fn broadcast_ens(
    pre: NodeView,
    post: NodeView,
    msg: Message,
    out: Seq<Message>,
) -> bool {
    let v = msg.body.tp->message;
    let fan = fanout(pre.neighbors, msg.src@);
    let base = pre.next_msg_id;
    &&& post.id == pre.id
    &&& post.neighbors == pre.neighbors
    &&& post.topology_assigned == pre.topology_assigned
    &&& post.values.to_set() == pre.values.to_set().insert(v)
    &&& out.len() == 1 + fan.len()
    &&& out[0].src@ == pre.id
    &&& out[0].dest@ == msg.src@
    &&& out[0].body.msg_id == msg.body.msg_id
    &&& out[0].body.in_reply_to == Some(msg.body.msg_id)
    &&& out[0].body.tp is BroadcastOk
    &&& forall|j: int|
        1 <= j < out.len() ==> {
            &&& (#[trigger] out[j]).src@ == pre.id
            &&& out[j].dest@ == fan[j - 1]
            &&& out[j].body.msg_id == id_at(base, j - 1)
            &&& out[j].body.in_reply_to is None
            &&& out[j].body.tp matches BodyType::Broadcast { message } && message == v
        }
    &&& post.pending.len() == pre.pending.len() + fan.len()
    &&& forall|m: int| 0 <= m < pre.pending.len() ==> #[trigger] post.pending[m] == pre.pending[m]
    &&& forall|m: int|
        pre.pending.len() <= m < post.pending.len() ==> #[trigger] post.pending[m]
            == (PendingView {
            dest: fan[m - pre.pending.len()],
            msg_id: id_at(base, m - pre.pending.len()),
            value: v,
            ticks_waiting: 0,
        })
    &&& post.next_msg_id == id_at(base, fan.len() as int)
}

/// What one anti-entropy tick did: every unacknowledged send that had
/// waited long enough went out again under a fresh id and a reset age,
/// every other one aged by one tick, and after the retries every neighbor
/// was sent the entire known set as one batch.
pub open spec fn sync_ens(pre: NodeView, post: NodeView, out: Seq<Message>) -> bool {
    let base = pre.next_msg_id;
    let retries = due_retries(pre.pending);
    let nr = retries.len() as int;
    let nb = pre.neighbors.len() as int;
    &&& post.id == pre.id
    &&& post.neighbors == pre.neighbors
    &&& post.topology_assigned == pre.topology_assigned
    &&& post.values == pre.values
    &&& post.pending.len() == pre.pending.len()
    &&& forall|i: int|
        0 <= i < pre.pending.len() && !due_for_retry(pre.pending[i])
            ==> #[trigger] post.pending[i] == (PendingView {
            ticks_waiting: (pre.pending[i].ticks_waiting + 1) as u64,
            ..pre.pending[i]
        })
    &&& forall|i: int|
        0 <= i < pre.pending.len() && due_for_retry(pre.pending[i])
            ==> #[trigger] post.pending[i] == (PendingView {
            msg_id: id_at(base, due_retries(pre.pending.take(i)).len() as int),
            ticks_waiting: 0,
            ..pre.pending[i]
        })
    &&& out.len() == nr + nb
    &&& forall|k: int|
        0 <= k < nr ==> {
            &&& (#[trigger] out[k]).src@ == pre.id
            &&& out[k].dest@ == retries[k].dest
            &&& out[k].body.msg_id == id_at(base, k)
            &&& out[k].body.in_reply_to is None
            &&& out[k].body.tp matches BodyType::Broadcast { message } && message
                == retries[k].value
        }
    &&& forall|k: int|
        nr <= k < nr + nb ==> {
            &&& (#[trigger] out[k]).src@ == pre.id
            &&& out[k].dest@ == pre.neighbors[k - nr]
            &&& out[k].body.msg_id == id_at(base, k)
            &&& out[k].body.in_reply_to is None
            &&& out[k].body.tp matches BodyType::BatchBroadcast { messages } && messages@
                == pre.values
        }
    &&& post.next_msg_id == id_at(base, nr + nb)
}

/// What applying one acknowledgment did: the matching entries left the
/// unacknowledged table; a second arrival of the same acknowledgment finds
/// nothing left to remove and is a no-op.
pub open spec fn broadcast_ok_ens(pre: NodeView, post: NodeView, msg: Message) -> bool {
    &&& post.pending == prune(pre.pending, msg.src@, msg.body.in_reply_to->0)
    &&& post.id == pre.id
    &&& post.neighbors == pre.neighbors
    &&& post.topology_assigned == pre.topology_assigned
    &&& post.values == pre.values
    &&& post.next_msg_id == pre.next_msg_id
}

impl BroadcastNode {
    /// How many sends are still waiting for their acknowledgment.
    pub fn unconfirmed_count(&self) -> (n: usize)
        ensures
            n == self@.pending.len(),
    {
        self.pending.len()
    }

    /// Hands out the next fresh message id and advances the counter.
    fn take_msg_id(&mut self) -> (id: u64)
        ensures
            id == old(self).next_msg_id,
            final(self).id == old(self).id,
            final(self).neighbors == old(self).neighbors,
            final(self).topology_assigned == old(self).topology_assigned,
            final(self).values == old(self).values,
            final(self).pending == old(self).pending,
            final(self).next_msg_id == sat_inc(old(self).next_msg_id),
    {
        let id = self.next_msg_id;
        self.next_msg_id = bump_id(self.next_msg_id);
        id
    }

    /// A copy of the known values, in ascending order.
    fn snapshot_values(&self) -> (r: Vec<i64>)
        ensures
            r@ == self@.values,
    {
        let mut r: Vec<i64> = Vec::new();
        let mut i: usize = 0;
        while i < self.values.len()
            invariant
                i <= self.values@.len(),
                r@ == self.values@.take(i as int),
            decreases self.values@.len() - i,
        {
            r.push(self.values[i]);
            proof {
                assert(self.values@.take((i + 1) as int) =~= self.values@.take(i as int).push(
                    self.values@[i as int],
                ));
            }
            i += 1;
        }
        proof {
            assert(self.values@.take(self.values@.len() as int) =~= self.values@);
        }
        r
    }

    /// Answers a read request with the snapshot of known values.
    pub fn read(&self, msg: &Message) -> (out: Vec<Message>)
        requires
            msg.body.tp is Read,
        ensures
            read_ens(self@, *msg, out@),
    {
        let messages = self.snapshot_values();
        let reply = Message {
            src: self.id.clone(),
            dest: msg.src.clone(),
            body: Body {
                msg_id: msg.body.msg_id,
                in_reply_to: Some(msg.body.msg_id),
                tp: BodyType::ReadOk { messages },
            },
        };
        let mut out: Vec<Message> = Vec::new();
        out.push(reply);
        out
    }

    /// Applies the one-time topology assignment: takes this node's neighbor
    /// list out of the cluster-wide map and acknowledges the request. A map
    /// without this node is refused; a second assignment is rejected.
    pub fn topology(&mut self, msg: &Message) -> (r: Result<Vec<Message>, NodeError>)
        requires
            node_inv(old(self)@),
            msg.body.tp is Topology,
        ensures
            node_inv(final(self)@),
            topology_ens(old(self)@, final(self)@, *msg, r),
    {
        if self.topology_assigned {
            return Err(NodeError::AlreadyConfigured);
        }
        let t = match &msg.body.tp {
            BodyType::Topology { topology } => topology,
            _ => vstd::pervasive::unreached(),
        };
        let ghost tv = topo_view(t@);
        proof {
            assert(tv.skip(0) =~= tv);
        }
        let mut i: usize = 0;
        while i < t.len() && !(t[i].0 == self.id)
            invariant
                i <= t@.len(),
                tv == topo_view(t@),
                topo_lookup(tv, self.id@) == topo_lookup(tv.skip(i as int), self.id@),
            decreases t@.len() - i,
        {
            proof {
                assert(tv.skip(i as int)[0] == tv[i as int]);
                assert(tv.skip(i as int).drop_first() =~= tv.skip((i + 1) as int));
            }
            i += 1;
        }
        if i == t.len() {
            proof {
                assert(tv.skip(i as int) =~= Seq::<(Seq<char>, Seq<Seq<char>>)>::empty());
            }
            return Err(NodeError::NotInTopology);
        }
        proof {
            assert(tv.skip(i as int)[0] == tv[i as int]);
            assert(topo_lookup(tv, self.id@) == Some(tv[i as int].1));
        }
        let src_list = &t[i].1;
        let mut nbrs: Vec<String> = Vec::new();
        let mut j: usize = 0;
        while j < src_list.len()
            invariant
                j <= src_list@.len(),
                nbrs@.len() == j,
                forall|m: int| 0 <= m < j ==> #[trigger] nbrs@[m]@ == src_list@[m]@,
            decreases src_list@.len() - j,
        {
            let elem = src_list[j].clone();
            nbrs.push(elem);
            j += 1;
        }
        proof {
            assert forall|m: int| 0 <= m < src_list@.len() implies nbrs.deep_view()[m]
                == src_list.deep_view()[m] by {
                assert(nbrs.deep_view()[m] == nbrs@[m]@);
                assert(src_list.deep_view()[m] == src_list@[m]@);
            }
            assert(nbrs.deep_view() =~= src_list.deep_view());
            assert(src_list.deep_view() == tv[i as int].1);
        }
        self.neighbors = nbrs;
        self.topology_assigned = true;
        let reply = Message {
            src: self.id.clone(),
            dest: msg.src.clone(),
            body: Body {
                msg_id: msg.body.msg_id,
                in_reply_to: Some(msg.body.msg_id),
                tp: BodyType::TopologyOk,
            },
        };
        let mut out: Vec<Message> = Vec::new();
        out.push(reply);
        Ok(out)
    }

    /// Ingests one broadcast: the value joins the known set (a duplicate
    /// collapses), the sender is acknowledged at once, and the value is
    /// flooded onward to every neighbor except the origin, each forward
    /// recorded as an unacknowledged send. A node that never got a topology
    /// has no neighbors and only stores and acknowledges.
    pub fn broadcast(&mut self, msg: &Message) -> (out: Vec<Message>)
        requires
            node_inv(old(self)@),
            msg.body.tp is Broadcast,
        ensures
            node_inv(final(self)@),
            broadcast_ens(old(self)@, final(self)@, *msg, out@),
    {
        let v = match &msg.body.tp {
            BodyType::Broadcast { message } => *message,
            _ => vstd::pervasive::unreached(),
        };
        let ghost pre = old(self)@;
        let ghost origin = msg.src@;
        let ghost base = pre.next_msg_id;
        insert_sorted(&mut self.values, v);
        let mut out: Vec<Message> = Vec::new();
        out.push(
            Message {
                src: self.id.clone(),
                dest: msg.src.clone(),
                body: Body {
                    msg_id: msg.body.msg_id,
                    in_reply_to: Some(msg.body.msg_id),
                    tp: BodyType::BroadcastOk,
                },
            },
        );
        let mut k: usize = 0;
        while k < self.neighbors.len()
            invariant
                k <= self.neighbors@.len(),
                pre == old(self)@,
                origin == msg.src@,
                base == pre.next_msg_id,
                v == msg.body.tp->message,
                self.id == old(self).id,
                self.neighbors == old(self).neighbors,
                self.topology_assigned == old(self).topology_assigned,
                strictly_sorted(self.values@),
                self.values@.to_set() == pre.values.to_set().insert(v),
                ({
                    let fk = fanout(pre.neighbors.take(k as int), origin);
                    &&& out@.len() == 1 + fk.len()
                    &&& out@[0].src@ == pre.id
                    &&& out@[0].dest@ == msg.src@
                    &&& out@[0].body.msg_id == msg.body.msg_id
                    &&& out@[0].body.in_reply_to == Some(msg.body.msg_id)
                    &&& out@[0].body.tp is BroadcastOk
                    &&& forall|j: int|
                        1 <= j < out@.len() ==> {
                            &&& (#[trigger] out@[j]).src@ == pre.id
                            &&& out@[j].dest@ == fk[j - 1]
                            &&& out@[j].body.msg_id == id_at(base, j - 1)
                            &&& out@[j].body.in_reply_to is None
                            &&& out@[j].body.tp matches BodyType::Broadcast { message } && message
                                == v
                        }
                    &&& self@.pending.len() == pre.pending.len() + fk.len()
                    &&& forall|m: int|
                        0 <= m < pre.pending.len() ==> #[trigger] self@.pending[m]
                            == pre.pending[m]
                    &&& forall|m: int|
                        pre.pending.len() <= m < self@.pending.len() ==> #[trigger] self@.pending[m]
                            == (PendingView {
                            dest: fk[m - pre.pending.len()],
                            msg_id: id_at(base, m - pre.pending.len()),
                            value: v,
                            ticks_waiting: 0,
                        })
                    &&& self@.next_msg_id == id_at(base, fk.len() as int)
                }),
            decreases self.neighbors@.len() - k,
        {
            let ghost fk = fanout(pre.neighbors.take(k as int), origin);
            proof {
                assert(pre.neighbors.take((k + 1) as int).drop_last() =~= pre.neighbors.take(
                    k as int,
                ));
                assert(pre.neighbors.take((k + 1) as int).last() == pre.neighbors[k as int]);
            }
            if !(self.neighbors[k] == msg.src) {
                let dest = self.neighbors[k].clone();
                let id = self.take_msg_id();
                let fwd = Message {
                    src: self.id.clone(),
                    dest: dest.clone(),
                    body: Body { msg_id: id, in_reply_to: None, tp: BodyType::Broadcast { message: v } },
                };
                let ghost prev_pending = self@.pending;
                out.push(fwd);
                self.pending.push(PendingSend { dest, msg_id: id, value: v, ticks_waiting: 0 });
                proof {
                    assert(self@.pending =~= prev_pending.push(
                        PendingView {
                            dest: pre.neighbors[k as int],
                            msg_id: id_at(base, fk.len() as int),
                            value: v,
                            ticks_waiting: 0,
                        },
                    ));
                    assert(id_at(base, (fk.len() + 1) as int) == sat_inc(id_at(base, fk.len() as int)));
                }
            }
            k += 1;
        }
        proof {
            assert(pre.neighbors.take(pre.neighbors.len() as int) =~= pre.neighbors);
        }
        out
    }

    /// One anti-entropy tick: every unacknowledged send that has waited
    /// `RETRY_TICKS` ticks goes out again under a fresh id, every other one
    /// ages by a tick, and every neighbor is sent the entire known set as
    /// one batch. The batches are deliberately redundant with flooding:
    /// together with the idempotent merge they heal any lost send.
    pub fn sync(&mut self, msg: &Message) -> (out: Vec<Message>)
        requires
            node_inv(old(self)@),
            msg.body.tp is SyncTick,
        ensures
            node_inv(final(self)@),
            sync_ens(old(self)@, final(self)@, out@),
    {
        let ghost pre = old(self)@;
        let ghost base = pre.next_msg_id;
        let mut out: Vec<Message> = Vec::new();
        let mut new_pending: Vec<PendingSend> = Vec::new();
        let mut i: usize = 0;
        while i < self.pending.len()
            invariant
                i <= self.pending@.len(),
                pre == old(self)@,
                base == pre.next_msg_id,
                self.id == old(self).id,
                self.neighbors == old(self).neighbors,
                self.topology_assigned == old(self).topology_assigned,
                self.values == old(self).values,
                self.pending == old(self).pending,
                new_pending@.len() == i,
                forall|m: int|
                    0 <= m < i && !due_for_retry(pre.pending[m]) ==> #[trigger] new_pending@[m]@
                        == (PendingView {
                        ticks_waiting: (pre.pending[m].ticks_waiting + 1) as u64,
                        ..pre.pending[m]
                    }),
                forall|m: int|
                    0 <= m < i && due_for_retry(pre.pending[m]) ==> #[trigger] new_pending@[m]@
                        == (PendingView {
                        msg_id: id_at(base, due_retries(pre.pending.take(m)).len() as int),
                        ticks_waiting: 0,
                        ..pre.pending[m]
                    }),
                ({
                    let dr = due_retries(pre.pending.take(i as int));
                    &&& out@.len() == dr.len()
                    &&& forall|k: int|
                        0 <= k < out@.len() ==> {
                            &&& (#[trigger] out@[k]).src@ == pre.id
                            &&& out@[k].dest@ == dr[k].dest
                            &&& out@[k].body.msg_id == id_at(base, k)
                            &&& out@[k].body.in_reply_to is None
                            &&& out@[k].body.tp matches BodyType::Broadcast { message } && message
                                == dr[k].value
                        }
                    &&& self.next_msg_id == id_at(base, dr.len() as int)
                }),
            decreases self.pending@.len() - i,
        {
            let ghost dr = due_retries(pre.pending.take(i as int));
            proof {
                assert(pre.pending.take((i + 1) as int).drop_last() =~= pre.pending.take(i as int));
                assert(pre.pending.take((i + 1) as int).last() == pre.pending[i as int]);
                assert(pre.pending[i as int] == self.pending@[i as int]@);
            }
            let dest = self.pending[i].dest.clone();
            let value = self.pending[i].value;
            if self.pending[i].ticks_waiting >= RETRY_TICKS - 1 {
                let dest_entry = self.pending[i].dest.clone();
                let id = self.take_msg_id();
                out.push(
                    Message {
                        src: self.id.clone(),
                        dest,
                        body: Body {
                            msg_id: id,
                            in_reply_to: None,
                            tp: BodyType::Broadcast { message: value },
                        },
                    },
                );
                new_pending.push(
                    PendingSend { dest: dest_entry, msg_id: id, value, ticks_waiting: 0 },
                );
                proof {
                    assert(id_at(base, (dr.len() + 1) as int) == sat_inc(id_at(base, dr.len() as int)));
                }
            } else {
                let kept_id = self.pending[i].msg_id;
                let ticks = self.pending[i].ticks_waiting;
                new_pending.push(
                    PendingSend { dest, msg_id: kept_id, value, ticks_waiting: ticks + 1 },
                );
            }
            i += 1;
        }
        proof {
            assert(pre.pending.take(pre.pending.len() as int) =~= pre.pending);
        }
        self.pending = new_pending;
        proof {
            assert forall|m: int| 0 <= m < pre.pending.len() implies self@.pending[m]
                == new_pending@[m]@ by {
                assert(self.pending.deep_view()[m] == self.pending@[m]@);
            }
        }
        let ghost nr = due_retries(pre.pending).len() as int;
        let mut k: usize = 0;
        while k < self.neighbors.len()
            invariant
                k <= self.neighbors@.len(),
                pre == old(self)@,
                base == pre.next_msg_id,
                nr == due_retries(pre.pending).len() as int,
                self.id == old(self).id,
                self.neighbors == old(self).neighbors,
                self.topology_assigned == old(self).topology_assigned,
                self.values == old(self).values,
                self.pending == new_pending,
                new_pending@.len() == pre.pending.len(),
                forall|m: int|
                    0 <= m < pre.pending.len() && !due_for_retry(pre.pending[m])
                        ==> #[trigger] new_pending@[m]@ == (PendingView {
                        ticks_waiting: (pre.pending[m].ticks_waiting + 1) as u64,
                        ..pre.pending[m]
                    }),
                forall|m: int|
                    0 <= m < pre.pending.len() && due_for_retry(pre.pending[m])
                        ==> #[trigger] new_pending@[m]@ == (PendingView {
                        msg_id: id_at(base, due_retries(pre.pending.take(m)).len() as int),
                        ticks_waiting: 0,
                        ..pre.pending[m]
                    }),
                out@.len() == nr + k,
                forall|j: int|
                    0 <= j < nr ==> {
                        &&& (#[trigger] out@[j]).src@ == pre.id
                        &&& out@[j].dest@ == due_retries(pre.pending)[j].dest
                        &&& out@[j].body.msg_id == id_at(base, j)
                        &&& out@[j].body.in_reply_to is None
                        &&& out@[j].body.tp matches BodyType::Broadcast { message } && message
                            == due_retries(pre.pending)[j].value
                    },
                forall|j: int|
                    nr <= j < out@.len() ==> {
                        &&& (#[trigger] out@[j]).src@ == pre.id
                        &&& out@[j].dest@ == pre.neighbors[j - nr]
                        &&& out@[j].body.msg_id == id_at(base, j)
                        &&& out@[j].body.in_reply_to is None
                        &&& out@[j].body.tp matches BodyType::BatchBroadcast { messages }
                            && messages@ == pre.values
                    },
                self.next_msg_id == id_at(base, nr + k),
            decreases self.neighbors@.len() - k,
        {
            proof {
                assert(pre.neighbors[k as int] == self.neighbors@[k as int]@);
            }
            let dest = self.neighbors[k].clone();
            let id = self.take_msg_id();
            let messages = self.snapshot_values();
            out.push(
                Message {
                    src: self.id.clone(),
                    dest,
                    body: Body {
                        msg_id: id,
                        in_reply_to: None,
                        tp: BodyType::BatchBroadcast { messages },
                    },
                },
            );
            proof {
                assert(id_at(base, nr + k + 1) == sat_inc(id_at(base, nr + k)));
            }
            k += 1;
        }
        out
    }

    /// Applies one acknowledgment from `msg.src`: every unacknowledged send
    /// to that peer under the correlated id leaves the table. A duplicate
    /// acknowledgment finds nothing left to remove and changes nothing.
    pub fn broadcast_ok(&mut self, msg: &Message)
        requires
            node_inv(old(self)@),
            msg.body.tp is BroadcastOk,
            msg.body.in_reply_to is Some,
        ensures
            node_inv(final(self)@),
            broadcast_ok_ens(old(self)@, final(self)@, *msg),
    {
        let corr = match msg.body.in_reply_to {
            Some(c) => c,
            None => vstd::pervasive::unreached(),
        };
        let ghost pre = old(self)@;
        let mut kept: Vec<PendingSend> = Vec::new();
        let mut i: usize = 0;
        while i < self.pending.len()
            invariant
                i <= self.pending@.len(),
                pre == old(self)@,
                corr == msg.body.in_reply_to->0,
                self.id == old(self).id,
                self.neighbors == old(self).neighbors,
                self.topology_assigned == old(self).topology_assigned,
                self.values == old(self).values,
                self.pending == old(self).pending,
                self.next_msg_id == old(self).next_msg_id,
                ({
                    let pr = prune(pre.pending.take(i as int), msg.src@, corr);
                    &&& kept@.len() == pr.len()
                    &&& forall|m: int| 0 <= m < kept@.len() ==> #[trigger] kept@[m]@ == pr[m]
                }),
            decreases self.pending@.len() - i,
        {
            proof {
                assert(pre.pending.take((i + 1) as int).drop_last() =~= pre.pending.take(i as int));
                assert(pre.pending.take((i + 1) as int).last() == pre.pending[i as int]);
                assert(pre.pending[i as int] == self.pending@[i as int]@);
            }
            let hit = self.pending[i].dest == msg.src && self.pending[i].msg_id == corr;
            if !hit {
                let e = PendingSend {
                    dest: self.pending[i].dest.clone(),
                    msg_id: self.pending[i].msg_id,
                    value: self.pending[i].value,
                    ticks_waiting: self.pending[i].ticks_waiting,
                };
                kept.push(e);
            }
            i += 1;
        }
        proof {
            assert(pre.pending.take(pre.pending.len() as int) =~= pre.pending);
        }
        self.pending = kept;
        proof {
            let pr = prune(pre.pending, msg.src@, corr);
            assert forall|m: int| 0 <= m < pr.len() implies self@.pending[m] == pr[m] by {
                assert(self.pending.deep_view()[m] == self.pending@[m]@);
            }
            assert(self@.pending =~= pr);
        }
    }

    /// Merges one anti-entropy batch into the known values. Idempotent: the
    /// same batch merged again leaves the set as it is.
    pub fn batch_broadcast(&mut self, msg: &Message)
        requires
            node_inv(old(self)@),
            msg.body.tp is BatchBroadcast,
        ensures
            node_inv(final(self)@),
            batch_ens(old(self)@, final(self)@, *msg),
    {
        let vals = match &msg.body.tp {
            BodyType::BatchBroadcast { messages } => messages,
            _ => vstd::pervasive::unreached(),
        };
        let mut i: usize = 0;
        while i < vals.len()
            invariant
                i <= vals@.len(),
                strictly_sorted(self.values@),
                self.values@.to_set() == old(self)@.values.to_set().union(
                    vals@.take(i as int).to_set(),
                ),
                self.id == old(self).id,
                self.neighbors == old(self).neighbors,
                self.topology_assigned == old(self).topology_assigned,
                self.pending == old(self).pending,
                self.next_msg_id == old(self).next_msg_id,
            decreases vals@.len() - i,
        {
            let ghost pre_vals = self.values@;
            insert_sorted(&mut self.values, vals[i]);
            proof {
                lemma_to_set_push(vals@.take(i as int), vals@[i as int]);
                assert(vals@.take((i + 1) as int) =~= vals@.take(i as int).push(vals@[i as int]));
                assert(self.values@.to_set() =~= old(self)@.values.to_set().union(
                    vals@.take((i + 1) as int).to_set(),
                ));
            }
            i += 1;
        }
        proof {
            assert(vals@.take(vals@.len() as int) =~= vals@);
        }
    }
}

impl Node for BroadcastNode {
    open spec fn id_spec(&self) -> Seq<char> {
        self@.id
    }

    open spec fn wf(&self) -> bool {
        node_inv(self@)
    }

    open spec fn new_ens(id: Seq<char>, n: Self) -> bool {
        n@ == (NodeView {
            id,
            neighbors: Seq::empty(),
            topology_assigned: false,
            values: Seq::empty(),
            pending: Seq::empty(),
            next_msg_id: 0,
        })
    }

    open spec fn step_ens(
        pre: Self,
        post: Self,
        msg: Message,
        r: Result<Vec<Message>, NodeError>,
    ) -> bool {
        if msg.dest@ != pre@.id {
            post@ == pre@ && (r matches Ok(out) && out@.len() == 0)
        } else {
            match msg.body.tp {
                BodyType::Topology { .. } => topology_ens(pre@, post@, msg, r),
                BodyType::Read => post@ == pre@ && (r matches Ok(out) && read_ens(
                    pre@,
                    msg,
                    out@,
                )),
                BodyType::Broadcast { .. } => r matches Ok(out) && broadcast_ens(
                    pre@,
                    post@,
                    msg,
                    out@,
                ),
                BodyType::BatchBroadcast { .. } => (r matches Ok(out) && out@.len() == 0)
                    && batch_ens(pre@, post@, msg),
                BodyType::SyncTick => r matches Ok(out) && sync_ens(pre@, post@, out@),
                _ => post@ == pre@ && (r matches Err(e) && e == NodeError::UnexpectedType),
            }
        }
    }

    open spec fn reply_ens(
        pre: Self,
        post: Self,
        msg: Message,
        r: Result<Vec<Message>, NodeError>,
    ) -> bool {
        &&& r matches Ok(out) && out@.len() == 0
        &&& if msg.dest@ == pre@.id && (msg.body.tp is BroadcastOk) && (
        msg.body.in_reply_to is Some) {
            broadcast_ok_ens(pre@, post@, msg)
        } else {
            post@ == pre@
        }
    }

    fn new(id: String) -> (n: Self) {
        let n = BroadcastNode {
            id,
            neighbors: Vec::new(),
            topology_assigned: false,
            values: Vec::new(),
            pending: Vec::new(),
            next_msg_id: 0,
        };
        proof {
            assert(n.neighbors.deep_view() =~= Seq::<Seq<char>>::empty());
            assert(n.pending.deep_view() =~= Seq::<PendingView>::empty());
        }
        n
    }

    fn step(&mut self, msg: &Message) -> (r: Result<Vec<Message>, NodeError>) {
        if !(msg.dest == self.id) {
            return Ok(Vec::new());
        }
        match &msg.body.tp {
            BodyType::Topology { .. } => self.topology(msg),
            BodyType::Read => Ok(self.read(msg)),
            BodyType::Broadcast { .. } => Ok(self.broadcast(msg)),
            BodyType::BatchBroadcast { .. } => {
                self.batch_broadcast(msg);
                Ok(Vec::new())
            },
            BodyType::SyncTick => Ok(self.sync(msg)),
            _ => Err(NodeError::UnexpectedType),
        }
    }

    fn reply(&mut self, msg: &Message) -> (r: Result<Vec<Message>, NodeError>) {
        if !(msg.dest == self.id) {
            return Ok(Vec::new());
        }
        match &msg.body.tp {
            BodyType::BroadcastOk => {
                if msg.body.in_reply_to.is_some() {
                    self.broadcast_ok(msg);
                }
                Ok(Vec::new())
            },
            _ => Ok(Vec::new()),
        }
    }

    fn get_id(&self) -> (id: String) {
        self.id.clone()
    }
}

/// Puts `v` into a strictly sorted sequence of values, keeping it strictly
/// sorted; a value already present leaves the sequence unchanged.
pub fn insert_sorted(values: &mut Vec<i64>, v: i64)
    requires
        strictly_sorted(old(values)@),
    ensures
        strictly_sorted(final(values)@),
        final(values)@.to_set() == old(values)@.to_set().insert(v),
{
    let mut i: usize = 0;
    while i < values.len() && values[i] < v
        invariant
            0 <= i <= values@.len(),
            forall|m: int| 0 <= m < i ==> values@[m] < v,
            strictly_sorted(values@),
        decreases values@.len() - i,
    {
        i += 1;
    }
    if i < values.len() && values[i] == v {
        proof {
            assert(values@.contains(v));
            assert(values@.to_set() =~= old(values)@.to_set().insert(v));
        }
    } else {
        let ghost pre = values@;
        values.insert(i, v);
        proof {
            assert forall|m: int, n: int| 0 <= m < n < values@.len() implies values@[m]
                < values@[n] by {
                if n < i {
                    assert(values@[m] == pre[m] && values@[n] == pre[n]);
                } else if m > i {
                    assert(values@[m] == pre[m - 1] && values@[n] == pre[n - 1]);
                } else if m < i && n == i {
                    assert(values@[m] == pre[m] && values@[n] == v);
                } else if m == i && n > i {
                    assert(values@[m] == v && values@[n] == pre[n - 1]);
                    assert(!(pre[n - 1] < v) && pre[n - 1] != v);
                } else if m < i && n > i {
                    assert(values@[m] == pre[m] && values@[n] == pre[n - 1]);
                    assert(!(pre[n - 1] < v) && pre[n - 1] != v);
                }
            }
            assert forall|x: i64| values@.to_set().contains(x) <==> old(values)@.to_set().insert(
                v,
            ).contains(x) by {
                if values@.contains(x) {
                    let k = choose|k: int| 0 <= k < values@.len() && values@[k] == x;
                    if k < i {
                        assert(pre[k] == x);
                        assert(pre.contains(x));
                    } else if k == i {
                        assert(x == v);
                    } else {
                        assert(pre[k - 1] == x);
                        assert(pre.contains(x));
                    }
                }
                if pre.contains(x) {
                    let k = choose|k: int| 0 <= k < pre.len() && pre[k] == x;
                    if k < i {
                        assert(values@[k] == x);
                    } else {
                        assert(values@[k + 1] == x);
                    }
                    assert(values@.contains(x));
                }
                if x == v {
                    assert(values@[i as int] == v);
                    assert(values@.contains(v));
                }
            }
            assert(values@.to_set() =~= old(values)@.to_set().insert(v));
        }
    }
}

} // verus!
