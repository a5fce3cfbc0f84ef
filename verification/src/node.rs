//! The node interface: what every handler-set promises, the dispatcher that
//! classifies an envelope as a request or a reply, and the one-time
//! initialization handshake.

use vstd::prelude::*;

use crate::error::NodeError;
use crate::message::{Body, BodyType, Message};

verus! {

/// The successor of a message-id counter. The counter sticks at the top of
/// the range instead of wrapping, so a fresh id never repeats an id that is
/// still outstanding.
pub open spec fn sat_inc(x: u64) -> u64 {
    if x < u64::MAX {
        (x + 1) as u64
    } else {
        x
    }
}

/// Advances a message-id counter by one, sticking at the top of the range.
pub fn bump_id(x: u64) -> (r: u64)
    ensures
        r == sat_inc(x),
{
    if x < u64::MAX {
        x + 1
    } else {
        x
    }
}

/// One participant of the cluster: a set of handlers over its own state.
/// `step` consumes one request, `reply` one acknowledgment; both return the
/// envelopes to send. What they do to the state is pinned down per
/// implementation by `step_ens` and `reply_ens`.
pub trait Node: Sized {
    /// The identity this node was given when it was constructed.
    spec fn id_spec(&self) -> Seq<char>;

    /// The internal invariant of the node's state.
    spec fn wf(&self) -> bool;

    /// What `step` did: how `post` relates to `pre` and what `r` holds.
    spec fn step_ens(pre: Self, post: Self, msg: Message, r: Result<Vec<Message>, NodeError>) -> bool;

    /// What `reply` did: how `post` relates to `pre` and what `r` holds.
    spec fn reply_ens(pre: Self, post: Self, msg: Message, r: Result<
        Vec<Message>,
        NodeError,
    >) -> bool;

    /// What a fresh node under identity `id` looks like.
    spec fn new_ens(id: Seq<char>, n: Self) -> bool;

    /// A fresh node under the given identity.
    fn new(id: String) -> (n: Self)
        ensures
            n.wf(),
            n.id_spec() == id@,
            Self::new_ens(id@, n),
    ;

    /// Consumes one request and returns the envelopes to send.
    fn step(&mut self, msg: &Message) -> (r: Result<Vec<Message>, NodeError>)
        requires
            old(self).wf(),
        ensures
            final(self).wf(),
            final(self).id_spec() == old(self).id_spec(),
            Self::step_ens(*old(self), *final(self), *msg, r),
    ;

    /// Consumes one reply and returns the envelopes to send.
    fn reply(&mut self, msg: &Message) -> (r: Result<Vec<Message>, NodeError>)
        requires
            old(self).wf(),
        ensures
            final(self).wf(),
            final(self).id_spec() == old(self).id_spec(),
            Self::reply_ens(*old(self), *final(self), *msg, r),
    ;

    /// This node's identity.
    fn get_id(&self) -> (id: String)
        ensures
            id@ == self.id_spec(),
    ;
}

/// The dispatcher: an envelope that answers a prior send (it carries
/// `in_reply_to`) goes to `reply`, every other envelope is a fresh request
/// and goes to `step`.
pub fn handle<T: Node>(node: &mut T, msg: &Message) -> (r: Result<Vec<Message>, NodeError>)
    requires
        old(node).wf(),
    ensures
        final(node).wf(),
        final(node).id_spec() == old(node).id_spec(),
        msg.body.in_reply_to is Some ==> T::reply_ens(*old(node), *final(node), *msg, r),
        msg.body.in_reply_to is None ==> T::step_ens(*old(node), *final(node), *msg, r),
{
    if msg.body.in_reply_to.is_some() {
        node.reply(msg)
    } else {
        node.step(msg)
    }
}

/// The initialization handshake. The very first decoded envelope must be an
/// `init` request; it yields the node under its assigned identity together
/// with the `init_ok` reply, correlated to the request. Anything else is
/// refused, and the caller treats that as fatal: no identity exists yet to
/// operate under.
pub fn init<T: Node>(msg: &Message) -> (r: Result<(T, Message), NodeError>)
    ensures
        msg.body.tp matches BodyType::Init { node_id, .. } ==> ({
            &&& r matches Ok((n, reply))
            &&& n.wf()
            &&& n.id_spec() == node_id@
            &&& T::new_ens(node_id@, n)
            &&& reply.src@ == msg.dest@
            &&& reply.dest@ == msg.src@
            &&& reply.body.msg_id == sat_inc(msg.body.msg_id)
            &&& reply.body.in_reply_to == Some(msg.body.msg_id)
            &&& reply.body.tp is InitOk
        }),
        !(msg.body.tp is Init) ==> (r matches Err(e) && e == NodeError::UnexpectedType),
{
    match &msg.body.tp {
        BodyType::Init { node_id, .. } => {
            let reply = Message {
                src: msg.dest.clone(),
                dest: msg.src.clone(),
                body: Body {
                    msg_id: bump_id(msg.body.msg_id),
                    in_reply_to: Some(msg.body.msg_id),
                    tp: BodyType::InitOk,
                },
            };
            Ok((T::new(node_id.clone()), reply))
        },
        _ => Err(NodeError::UnexpectedType),
    }
}

} // verus!
