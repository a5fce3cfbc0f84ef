//! The stateless id-generation responder: every generate request is answered
//! with a freshly drawn unique identifier.

use vstd::prelude::*;

use crate::error::NodeError;
use crate::message::{Body, BodyType, Message};
use crate::node::Node;

verus! {

/// A node that serves only id-generation requests.
pub struct GenerateNode {
    id: String,
}

/// Relies on `uuid::Uuid::new_v4` and its `Display` impl: a freshly drawn
/// random identifier, rendered in the 36-character hyphenated form. The draw
/// is random, so nothing beyond the length is promised of the outcome.
#[verifier::external_body]
fn fresh_uuid() -> (r: String)
    ensures
        r@.len() == 36,
{
    uuid::Uuid::new_v4().to_string()
}

impl GenerateNode {
    /// The reply to one generate request, carrying the given identifier.
    pub fn generate_reply(&self, msg: &Message, uid: String) -> (m: Message)
        ensures
            m.src@ == self.id_spec(),
            m.dest@ == msg.src@,
            m.body.msg_id == msg.body.msg_id,
            m.body.in_reply_to == Some(msg.body.msg_id),
            m.body.tp matches BodyType::GenerateOk { id } && id@ == uid@,
    {
        Message {
            src: self.id.clone(),
            dest: msg.src.clone(),
            body: Body {
                msg_id: msg.body.msg_id,
                in_reply_to: Some(msg.body.msg_id),
                tp: BodyType::GenerateOk { id: uid },
            },
        }
    }
}

impl Node for GenerateNode {
    closed spec fn id_spec(&self) -> Seq<char> {
        self.id@
    }

    open spec fn wf(&self) -> bool {
        true
    }

    open spec fn step_ens(
        pre: Self,
        post: Self,
        msg: Message,
        r: Result<Vec<Message>, NodeError>,
    ) -> bool {
        &&& post == pre
        &&& if msg.dest@ != pre.id_spec() {
            r matches Ok(out) && out@.len() == 0
        } else {
            match msg.body.tp {
                BodyType::Generate => {
                    &&& r matches Ok(out)
                    &&& out@.len() == 1
                    &&& out@[0].src@ == pre.id_spec()
                    &&& out@[0].dest@ == msg.src@
                    &&& out@[0].body.msg_id == msg.body.msg_id
                    &&& out@[0].body.in_reply_to == Some(msg.body.msg_id)
                    &&& out@[0].body.tp matches BodyType::GenerateOk { id } && id@.len() == 36
                },
                _ => r matches Err(e) && e == NodeError::UnexpectedType,
            }
        }
    }

    open spec fn reply_ens(
        pre: Self,
        post: Self,
        msg: Message,
        r: Result<Vec<Message>, NodeError>,
    ) -> bool {
        post == pre && (r matches Ok(out) && out@.len() == 0)
    }

    open spec fn new_ens(id: Seq<char>, n: Self) -> bool {
        n.id_spec() == id
    }

    fn new(id: String) -> (n: Self) {
        GenerateNode { id }
    }

    fn step(&mut self, msg: &Message) -> (r: Result<Vec<Message>, NodeError>) {
        if !(msg.dest == self.id) {
            return Ok(Vec::new());
        }
        match &msg.body.tp {
            BodyType::Generate => {
                let uid = fresh_uuid();
                let reply = self.generate_reply(msg, uid);
                let mut out: Vec<Message> = Vec::new();
                out.push(reply);
                Ok(out)
            },
            _ => Err(NodeError::UnexpectedType),
        }
    }

    fn reply(&mut self, _msg: &Message) -> (r: Result<Vec<Message>, NodeError>) {
        Ok(Vec::new())
    }

    fn get_id(&self) -> (id: String) {
        self.id.clone()
    }
}

} // verus!
