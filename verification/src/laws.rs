//! General properties of the protocol, stated and proved once for every
//! input.

use vstd::prelude::*;

use crate::broadcast::{broadcast_ens, prune, topology_ens, NodeView, PendingView};
use crate::error::NodeError;
use crate::message::Message;

verus! {

/// A strictly increasing sequence of values.
pub open spec fn strictly_sorted(s: Seq<i64>) -> bool {
    forall|i: int, j: int| 0 <= i < j < s.len() ==> s[i] < s[j]
}

/// Appending one element adds exactly that element to the set of elements.
pub proof fn lemma_to_set_push<A>(s: Seq<A>, x: A)
    ensures
        s.push(x).to_set() == s.to_set().insert(x),
{
    assert forall|y: A| #[trigger] s.push(x).to_set().contains(y) implies s.to_set().insert(
        x,
    ).contains(y) by {
        let k = choose|k: int| 0 <= k < s.push(x).len() && s.push(x)[k] == y;
        if k < s.len() {
            assert(s[k] == y);
        }
    }
    assert forall|y: A| s.to_set().insert(x).contains(y) implies #[trigger] s.push(
        x,
    ).to_set().contains(y) by {
        if s.to_set().contains(y) {
            let k = choose|k: int| 0 <= k < s.len() && s[k] == y;
            assert(s.push(x)[k] == y);
        } else {
            assert(s.push(x)[s.len() as int] == x);
        }
    }
    assert(s.push(x).to_set() =~= s.to_set().insert(x));
}

/// The known set after a run of broadcast deliveries, each one inserting
/// its value as `broadcast_ens` states.
pub open spec fn apply_broadcasts(s: Set<i64>, ds: Seq<i64>) -> Set<i64>
    decreases ds.len(),
{
    if ds.len() == 0 {
        s
    } else {
        apply_broadcasts(s.insert(ds[0]), ds.drop_first())
    }
}

/// Any run of deliveries of one value, duplicates from retries or from
/// overlapping flood paths included, leaves exactly the set that a single
/// delivery leaves: the value is known once.
pub proof fn lemma_repeated_broadcasts_collapse(s: Set<i64>, ds: Seq<i64>, v: i64)
    requires
        ds.len() >= 1,
        forall|i: int| 0 <= i < ds.len() ==> ds[i] == v,
    ensures
        apply_broadcasts(s, ds) == s.insert(v),
    decreases ds.len(),
{
    assert(ds[0] == v);
    if ds.len() == 1 {
        assert(ds.drop_first().len() == 0);
        assert(apply_broadcasts(s, ds) == apply_broadcasts(s.insert(v), ds.drop_first()));
        assert(apply_broadcasts(s.insert(v), ds.drop_first()) == s.insert(v));
    } else {
        assert(forall|i: int|
            0 <= i < ds.drop_first().len() ==> #[trigger] ds.drop_first()[i] == v);
        lemma_repeated_broadcasts_collapse(s.insert(v), ds.drop_first(), v);
        assert(s.insert(v).insert(v) =~= s.insert(v));
    }
}

/// In a strictly sorted sequence a present value occupies exactly one
/// position, so a read reports it exactly once.
pub proof fn lemma_sorted_value_once(s: Seq<i64>, v: i64)
    requires
        strictly_sorted(s),
        s.to_set().contains(v),
    ensures
        exists|i: int| 0 <= i < s.len() && s[i] == v,
        forall|i: int, j: int|
            0 <= i < s.len() && 0 <= j < s.len() && s[i] == v && s[j] == v ==> i == j,
{
    assert(s.contains(v));
    assert forall|i: int, j: int|
        0 <= i < s.len() && 0 <= j < s.len() && s[i] == v && s[j] == v implies i == j by {
        if i < j {
            assert(s[i] < s[j]);
        } else if j < i {
            assert(s[j] < s[i]);
        }
    }
}

/// However a broadcast of `v` reached the node — first delivery, a retry,
/// or a duplicate from an overlapping flood path — the snapshot a read
/// reports afterwards holds `v` at exactly one position.
pub proof fn lemma_broadcast_value_read_once(
    pre: NodeView,
    post: NodeView,
    msg: Message,
    out: Seq<Message>,
)
    requires
        strictly_sorted(post.values),
        broadcast_ens(pre, post, msg, out),
    ensures
        exists|i: int| 0 <= i < post.values.len() && post.values[i] == msg.body.tp->message,
        forall|i: int, j: int|
            0 <= i < post.values.len() && 0 <= j < post.values.len() && post.values[i]
                == msg.body.tp->message && post.values[j] == msg.body.tp->message ==> i == j,
{
    let v = msg.body.tp->message;
    assert(post.values.to_set().contains(v));
    lemma_sorted_value_once(post.values, v);
}

/// Anti-entropy convergence. One of A's ticks sends its entire value
/// sequence to B, whose merge unions it in (`vb2`); B's next tick sends its
/// entire new sequence back, and A's merge unions that in (`va2`). After
/// this one round trip the two nodes know exactly the same values, whatever
/// the two sets were before.
pub proof fn lemma_anti_entropy_convergence(
    va: Set<i64>,
    vb: Set<i64>,
    vb2: Set<i64>,
    va2: Set<i64>,
)
    requires
        vb2 == vb.union(va),
        va2 == va.union(vb2),
    ensures
        va2 == vb2,
{
    assert(va2 =~= vb2);
}

/// Merging the same anti-entropy batch twice leaves what one merge leaves.
pub proof fn lemma_merge_idempotent(s: Set<i64>, batch: Set<i64>)
    ensures
        s.union(batch).union(batch) == s.union(batch),
{
    assert(s.union(batch).union(batch) =~= s.union(batch));
}

/// Acknowledgment pruning is idempotent: the second application of one
/// acknowledgment finds nothing left to remove, so the table — its size
/// included — stays exactly as the first application left it.
pub proof fn lemma_prune_idempotent(p: Seq<PendingView>, peer: Seq<char>, corr: u64)
    ensures
        prune(prune(p, peer, corr), peer, corr) == prune(p, peer, corr),
    decreases p.len(),
{
    if p.len() == 0 {
        assert(prune(p, peer, corr) == Seq::<PendingView>::empty());
        assert(prune(prune(p, peer, corr), peer, corr) == prune(p, peer, corr));
    } else {
        let dl = p.drop_last();
        let last = p.last();
        lemma_prune_idempotent(dl, peer, corr);
        if last.dest == peer && last.msg_id == corr {
            assert(prune(p, peer, corr) == prune(dl, peer, corr));
        } else {
            assert(prune(p, peer, corr) == prune(dl, peer, corr).push(last));
            assert(prune(dl, peer, corr).push(last).drop_last() =~= prune(dl, peer, corr));
            assert(prune(dl, peer, corr).push(last).last() == last);
            assert(prune(prune(p, peer, corr), peer, corr) == prune(
                prune(dl, peer, corr),
                peer,
                corr,
            ).push(last));
        }
    }
}

/// Topology assignment is applied at most once: once a node holds a
/// neighbor set, any further topology request is rejected with
/// `AlreadyConfigured` and leaves the state exactly as it was.
pub proof fn lemma_topology_at_most_once(
    s1: NodeView,
    s2: NodeView,
    msg: Message,
    r: Result<Vec<Message>, NodeError>,
)
    requires
        s1.topology_assigned,
        topology_ens(s1, s2, msg, r),
    ensures
        s2 == s1,
        r matches Err(e) && e == NodeError::AlreadyConfigured,
{
}

} // verus!
