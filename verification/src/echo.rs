//! The stateless echo responder: every echo request is answered with its own
//! payload.

use vstd::prelude::*;

use crate::error::NodeError;
use crate::message::{opt_str_view, Body, BodyType, Message};
use crate::node::Node;

verus! {

/// A node that serves only echo requests.
pub struct EchoNode {
    id: String,
}

impl Node for EchoNode {
    closed spec fn id_spec(&self) -> Seq<char> {
        self.id@
    }

    open spec fn wf(&self) -> bool {
        true
    }

    open spec fn step_ens(
        pre: Self,
        post: Self,
        msg: Message,
        r: Result<Vec<Message>, NodeError>,
    ) -> bool {
        &&& post == pre
        &&& if msg.dest@ != pre.id_spec() {
            r matches Ok(out) && out@.len() == 0
        } else {
            match msg.body.tp {
                BodyType::Echo { echo } => {
                    &&& r matches Ok(out)
                    &&& out@.len() == 1
                    &&& out@[0].src@ == pre.id_spec()
                    &&& out@[0].dest@ == msg.src@
                    &&& out@[0].body.msg_id == msg.body.msg_id
                    &&& out@[0].body.in_reply_to == Some(msg.body.msg_id)
                    &&& out@[0].body.tp matches BodyType::EchoOk { echo: e } && opt_str_view(e)
                        == opt_str_view(echo)
                },
                _ => r matches Err(e) && e == NodeError::UnexpectedType,
            }
        }
    }

    open spec fn reply_ens(
        pre: Self,
        post: Self,
        msg: Message,
        r: Result<Vec<Message>, NodeError>,
    ) -> bool {
        post == pre && (r matches Ok(out) && out@.len() == 0)
    }

    open spec fn new_ens(id: Seq<char>, n: Self) -> bool {
        n.id_spec() == id
    }

    fn new(id: String) -> (n: Self) {
        EchoNode { id }
    }

    fn step(&mut self, msg: &Message) -> (r: Result<Vec<Message>, NodeError>) {
        if !(msg.dest == self.id) {
            return Ok(Vec::new());
        }
        match &msg.body.tp {
            BodyType::Echo { echo } => {
                let payload = match echo {
                    Some(s) => Some(s.clone()),
                    None => None,
                };
                let reply = Message {
                    src: self.id.clone(),
                    dest: msg.src.clone(),
                    body: Body {
                        msg_id: msg.body.msg_id,
                        in_reply_to: Some(msg.body.msg_id),
                        tp: BodyType::EchoOk { echo: payload },
                    },
                };
                let mut out: Vec<Message> = Vec::new();
                out.push(reply);
                Ok(out)
            },
            _ => Err(NodeError::UnexpectedType),
        }
    }

    fn reply(&mut self, _msg: &Message) -> (r: Result<Vec<Message>, NodeError>) {
        Ok(Vec::new())
    }

    fn get_id(&self) -> (id: String) {
        self.id.clone()
    }
}

} // verus!
