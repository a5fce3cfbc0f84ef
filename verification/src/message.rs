//! The message model: the envelope exchanged on the wire and the closed set
//! of body variants the protocol speaks.

use vstd::prelude::*;

verus! {

/// One envelope: a source identity, a destination identity, and a body.
pub struct Message {
    pub src: String,
    pub dest: String,
    pub body: Body,
}

/// The body of an envelope: a message id chosen by the sender, the id of the
/// request this message answers (present exactly on replies), and the
/// variant payload.
pub struct Body {
    pub msg_id: u64,
    pub in_reply_to: Option<u64>,
    pub tp: BodyType,
}

/// The closed set of message kinds. Requests come first, then the replies
/// that answer them. `SyncTick` is internal: the periodic timer delivers it
/// to the node, it never travels on the wire.
pub enum BodyType {
    Init { node_id: String, node_ids: Vec<String> },
    Echo { echo: Option<String> },
    Generate,
    Topology { topology: Vec<(String, Vec<String>)> },
    Broadcast { message: i64 },
    BatchBroadcast { messages: Vec<i64> },
    Read,
    SyncTick,
    InitOk,
    EchoOk { echo: Option<String> },
    GenerateOk { id: String },
    BroadcastOk,
    ReadOk { messages: Vec<i64> },
    TopologyOk,
}

/// The character sequences held by an optional string payload.
pub open spec fn opt_str_view(o: Option<String>) -> Option<Seq<char>> {
    match o {
        Option::Some(s) => Option::Some(s@),
        Option::None => Option::None,
    }
}

} // verus!
