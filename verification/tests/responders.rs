use gossip_node::broadcast::BroadcastNode;
use gossip_node::echo::EchoNode;
use gossip_node::error::NodeError;
use gossip_node::generate::GenerateNode;
use gossip_node::message::{Body, BodyType, Message};
use gossip_node::node::{init, Node};

fn msg(src: &str, dest: &str, msg_id: u64, in_reply_to: Option<u64>, tp: BodyType) -> Message {
    Message {
        src: src.to_string(),
        dest: dest.to_string(),
        body: Body { msg_id, in_reply_to, tp },
    }
}

#[test]
fn init_handshake_assigns_the_identity_and_replies() {
    let request = msg(
        "c1",
        "n1",
        1,
        None,
        BodyType::Init { node_id: "n1".to_string(), node_ids: vec!["n1".to_string()] },
    );
    let (node, reply): (BroadcastNode, Message) = init(&request).expect("handshake failed");
    assert_eq!(node.get_id(), "n1");
    assert_eq!(reply.src, "n1");
    assert_eq!(reply.dest, "c1");
    assert_eq!(reply.body.in_reply_to, Some(1));
    assert!(matches!(reply.body.tp, BodyType::InitOk));
}

#[test]
fn init_refuses_any_other_first_message() {
    let request = msg("c1", "n1", 1, None, BodyType::Read);
    let r: Result<(BroadcastNode, Message), NodeError> = init(&request);
    assert!(matches!(r, Err(NodeError::UnexpectedType)));
}

#[test]
fn echo_replies_with_its_own_payload() {
    let mut node = EchoNode::new("n1".to_string());
    let out = node
        .step(&msg(
            "c1",
            "n1",
            4,
            None,
            BodyType::Echo { echo: Some("hello there".to_string()) },
        ))
        .unwrap();
    assert_eq!(out.len(), 1);
    assert_eq!(out[0].src, "n1");
    assert_eq!(out[0].dest, "c1");
    assert_eq!(out[0].body.msg_id, 4);
    assert_eq!(out[0].body.in_reply_to, Some(4));
    match &out[0].body.tp {
        BodyType::EchoOk { echo } => assert_eq!(echo.as_deref(), Some("hello there")),
        _ => panic!("echo did not answer with echo_ok"),
    }
}

#[test]
fn echo_replies_to_an_empty_payload() {
    let mut node = EchoNode::new("n1".to_string());
    let out = node.step(&msg("c1", "n1", 4, None, BodyType::Echo { echo: None })).unwrap();
    assert_eq!(out.len(), 1);
    match &out[0].body.tp {
        BodyType::EchoOk { echo } => assert_eq!(echo, &None),
        _ => panic!("echo did not answer with echo_ok"),
    }
}

#[test]
fn echo_drops_an_envelope_for_another_node() {
    let mut node = EchoNode::new("n1".to_string());
    let out = node.step(&msg("c1", "n9", 4, None, BodyType::Echo { echo: None })).unwrap();
    assert!(out.is_empty());
}

#[test]
fn echo_refuses_a_foreign_request_kind() {
    let mut node = EchoNode::new("n1".to_string());
    let r = node.step(&msg("c1", "n1", 4, None, BodyType::Generate));
    assert!(matches!(r, Err(NodeError::UnexpectedType)));
}

#[test]
fn generate_replies_with_a_fresh_identifier() {
    let mut node = GenerateNode::new("n1".to_string());
    let out = node.step(&msg("c1", "n1", 4, None, BodyType::Generate)).unwrap();
    assert_eq!(out.len(), 1);
    assert_eq!(out[0].src, "n1");
    assert_eq!(out[0].dest, "c1");
    assert_eq!(out[0].body.in_reply_to, Some(4));
    match &out[0].body.tp {
        BodyType::GenerateOk { id } => {
            // the hyphenated form of a 128-bit identifier
            assert_eq!(id.len(), 36);
            assert_eq!(id.matches('-').count(), 4);
        },
        _ => panic!("generate did not answer with generate_ok"),
    }
}

#[test]
fn generated_identifiers_differ_between_requests() {
    let mut node = GenerateNode::new("n1".to_string());
    let first = node.step(&msg("c1", "n1", 1, None, BodyType::Generate)).unwrap();
    let second = node.step(&msg("c1", "n1", 2, None, BodyType::Generate)).unwrap();
    let id_of = |m: &Message| match &m.body.tp {
        BodyType::GenerateOk { id } => id.clone(),
        _ => panic!("generate did not answer with generate_ok"),
    };
    assert_ne!(id_of(&first[0]), id_of(&second[0]));
}
