use gossip_node::broadcast::BroadcastNode;
use gossip_node::error::NodeError;
use gossip_node::message::{Body, BodyType, Message};
use gossip_node::node::{handle, Node};

fn msg(src: &str, dest: &str, msg_id: u64, in_reply_to: Option<u64>, tp: BodyType) -> Message {
    Message {
        src: src.to_string(),
        dest: dest.to_string(),
        body: Body { msg_id, in_reply_to, tp },
    }
}

fn topology_msg(src: &str, dest: &str, msg_id: u64, pairs: &[(&str, &[&str])]) -> Message {
    let topology: Vec<(String, Vec<String>)> = pairs
        .iter()
        .map(|(k, vs)| (k.to_string(), vs.iter().map(|v| v.to_string()).collect()))
        .collect();
    msg(src, dest, msg_id, None, BodyType::Topology { topology })
}

fn read_of(node: &BroadcastNode, node_id: &str, msg_id: u64) -> Vec<i64> {
    let out = node.read(&msg("c1", node_id, msg_id, None, BodyType::Read));
    assert_eq!(out.len(), 1);
    assert_eq!(out[0].src, node_id);
    assert_eq!(out[0].dest, "c1");
    assert_eq!(out[0].body.in_reply_to, Some(msg_id));
    match &out[0].body.tp {
        BodyType::ReadOk { messages } => messages.clone(),
        _ => panic!("read did not answer with read_ok"),
    }
}

fn read_back(node: &BroadcastNode, msg_id: u64) -> Vec<i64> {
    read_of(node, "n1", msg_id)
}

fn configured_node(neighbors: &[&str]) -> BroadcastNode {
    let mut node = BroadcastNode::new("n1".to_string());
    let out = node
        .step(&topology_msg("c1", "n1", 1, &[("n1", neighbors)]))
        .expect("topology assignment failed");
    assert_eq!(out.len(), 1);
    node
}

#[test]
fn topology_is_acknowledged() {
    let mut node = BroadcastNode::new("n1".to_string());
    let out = node
        .step(&topology_msg("c1", "n1", 9, &[("n1", &["n2", "n3"])]))
        .expect("topology assignment failed");
    assert_eq!(out.len(), 1);
    assert_eq!(out[0].src, "n1");
    assert_eq!(out[0].dest, "c1");
    assert_eq!(out[0].body.msg_id, 9);
    assert_eq!(out[0].body.in_reply_to, Some(9));
    assert!(matches!(out[0].body.tp, BodyType::TopologyOk));
}

#[test]
fn topology_without_self_is_refused() {
    let mut node = BroadcastNode::new("n1".to_string());
    let r = node.step(&topology_msg("c1", "n1", 1, &[("n2", &["n1"])]));
    assert!(matches!(r, Err(NodeError::NotInTopology)));
}

#[test]
fn second_topology_is_rejected() {
    let mut node = configured_node(&["n2"]);
    let r = node.step(&topology_msg("c1", "n1", 2, &[("n1", &["n9"])]));
    assert!(matches!(r, Err(NodeError::AlreadyConfigured)));
    // the first assignment still stands: a broadcast is forwarded to n2
    let out = node
        .step(&msg("c1", "n1", 3, None, BodyType::Broadcast { message: 5 }))
        .unwrap();
    assert_eq!(out.len(), 2);
    assert_eq!(out[1].dest, "n2");
}

#[test]
fn broadcast_is_acknowledged_forwarded_and_readable() {
    let mut node = configured_node(&["n2"]);
    let out = node
        .step(&msg("c1", "n1", 7, None, BodyType::Broadcast { message: 5 }))
        .unwrap();
    assert_eq!(out.len(), 2);
    // the acknowledgment to the client comes first
    assert_eq!(out[0].src, "n1");
    assert_eq!(out[0].dest, "c1");
    assert_eq!(out[0].body.in_reply_to, Some(7));
    assert!(matches!(out[0].body.tp, BodyType::BroadcastOk));
    // then the forward to the neighbor, as a fresh request
    assert_eq!(out[1].src, "n1");
    assert_eq!(out[1].dest, "n2");
    assert_eq!(out[1].body.in_reply_to, None);
    assert!(matches!(out[1].body.tp, BodyType::Broadcast { message: 5 }));
    assert_eq!(node.unconfirmed_count(), 1);
    assert_eq!(read_back(&node, 8), vec![5]);
}

#[test]
fn duplicate_broadcast_is_read_once() {
    let mut node = configured_node(&["n2"]);
    let first = msg("c1", "n1", 7, None, BodyType::Broadcast { message: 5 });
    let second = msg("c1", "n1", 8, None, BodyType::Broadcast { message: 5 });
    node.step(&first).unwrap();
    node.step(&second).unwrap();
    assert_eq!(read_back(&node, 9), vec![5]);
}

#[test]
fn broadcast_skips_the_origin() {
    let mut node = configured_node(&["n2", "n3"]);
    let out = node
        .step(&msg("n2", "n1", 4, None, BodyType::Broadcast { message: 5 }))
        .unwrap();
    assert_eq!(out.len(), 2);
    assert_eq!(out[0].dest, "n2"); // the acknowledgment
    assert_eq!(out[1].dest, "n3"); // the only forward
}

#[test]
fn forwards_carry_distinct_fresh_ids() {
    let mut node = configured_node(&["n2", "n3"]);
    let out = node
        .step(&msg("c1", "n1", 4, None, BodyType::Broadcast { message: 5 }))
        .unwrap();
    assert_eq!(out.len(), 3);
    assert_ne!(out[1].body.msg_id, out[2].body.msg_id);
}

#[test]
fn leaf_node_only_stores_and_acknowledges() {
    let mut node = BroadcastNode::new("n1".to_string());
    let out = node
        .step(&msg("c1", "n1", 7, None, BodyType::Broadcast { message: 5 }))
        .unwrap();
    assert_eq!(out.len(), 1);
    assert!(matches!(out[0].body.tp, BodyType::BroadcastOk));
    assert_eq!(node.unconfirmed_count(), 0);
    assert_eq!(read_back(&node, 8), vec![5]);
}

#[test]
fn read_is_sorted_and_initially_empty() {
    let mut node = configured_node(&[]);
    assert_eq!(read_back(&node, 1), Vec::<i64>::new());
    node.step(&msg("c1", "n1", 2, None, BodyType::Broadcast { message: 5 }))
        .unwrap();
    node.step(&msg("c1", "n1", 3, None, BodyType::Broadcast { message: 3 }))
        .unwrap();
    assert_eq!(read_back(&node, 4), vec![3, 5]);
}

#[test]
fn merge_batch_is_idempotent() {
    let mut node = BroadcastNode::new("n1".to_string());
    let batch = msg(
        "n2",
        "n1",
        1,
        None,
        BodyType::BatchBroadcast { messages: vec![1, 2, 3] },
    );
    let out = node.step(&batch).unwrap();
    assert!(out.is_empty());
    assert_eq!(read_back(&node, 2), vec![1, 2, 3]);
    let again = msg(
        "n2",
        "n1",
        3,
        None,
        BodyType::BatchBroadcast { messages: vec![1, 2, 3] },
    );
    node.step(&again).unwrap();
    assert_eq!(read_back(&node, 4), vec![1, 2, 3]);
}

#[test]
fn sync_sends_full_state_to_every_neighbor() {
    let mut node = configured_node(&["n2", "n3"]);
    node.step(&msg("n2", "n1", 2, None, BodyType::Broadcast { message: 5 }))
        .unwrap();
    // the only pending forward went to n3 and is one tick old after this
    let out = node.step(&msg("t", "n1", 0, None, BodyType::SyncTick)).unwrap();
    assert_eq!(out.len(), 2);
    for (m, dest) in out.iter().zip(["n2", "n3"]) {
        assert_eq!(m.src, "n1");
        assert_eq!(m.dest, dest);
        assert_eq!(m.body.in_reply_to, None);
        match &m.body.tp {
            BodyType::BatchBroadcast { messages } => assert_eq!(messages, &vec![5]),
            _ => panic!("sync did not send a batch"),
        }
    }
}

#[test]
fn unacknowledged_send_is_resent_after_enough_ticks() {
    let mut node = configured_node(&["n3"]);
    node.step(&msg("c1", "n1", 2, None, BodyType::Broadcast { message: 5 }))
        .unwrap();
    assert_eq!(node.unconfirmed_count(), 1);
    // first tick: the entry has waited one tick, not yet long enough
    let out = node.step(&msg("t", "n1", 0, None, BodyType::SyncTick)).unwrap();
    assert_eq!(out.len(), 1);
    assert!(matches!(out[0].body.tp, BodyType::BatchBroadcast { .. }));
    // second tick: the entry is due and is re-sent ahead of the batches
    let out = node.step(&msg("t", "n1", 0, None, BodyType::SyncTick)).unwrap();
    assert_eq!(out.len(), 2);
    assert_eq!(out[0].dest, "n3");
    assert!(matches!(out[0].body.tp, BodyType::Broadcast { message: 5 }));
    assert!(matches!(out[1].body.tp, BodyType::BatchBroadcast { .. }));
    // the retry still awaits its acknowledgment, under its fresh id
    assert_eq!(node.unconfirmed_count(), 1);
}

#[test]
fn anti_entropy_converges_two_nodes() {
    // two neighboring nodes with disjoint known values; every flood message
    // between them is lost, only the periodic full-state batches arrive
    let mut a = BroadcastNode::new("n1".to_string());
    a.step(&topology_msg("c1", "n1", 1, &[("n1", &["n2"])])).unwrap();
    let mut b = BroadcastNode::new("n2".to_string());
    b.step(&topology_msg("c1", "n2", 1, &[("n2", &["n1"])])).unwrap();
    a.step(&msg("c1", "n1", 2, None, BodyType::Broadcast { message: 1 })).unwrap();
    b.step(&msg("c2", "n2", 2, None, BodyType::Broadcast { message: 2 })).unwrap();
    let deliver_batches = |from: Vec<Message>, to: &mut BroadcastNode| {
        for m in from {
            if matches!(m.body.tp, BodyType::BatchBroadcast { .. }) {
                to.step(&m).unwrap();
            }
        }
    };
    let out_a = a.step(&msg("t", "n1", 0, None, BodyType::SyncTick)).unwrap();
    deliver_batches(out_a, &mut b);
    let out_b = b.step(&msg("t", "n2", 0, None, BodyType::SyncTick)).unwrap();
    deliver_batches(out_b, &mut a);
    assert_eq!(read_of(&a, "n1", 9), vec![1, 2]);
    assert_eq!(read_of(&b, "n2", 9), vec![1, 2]);
}

#[test]
fn acknowledgment_prunes_and_a_duplicate_is_a_no_op() {
    let mut node = configured_node(&["n2"]);
    let out = node
        .step(&msg("c1", "n1", 7, None, BodyType::Broadcast { message: 5 }))
        .unwrap();
    let forwarded_id = out[1].body.msg_id;
    assert_eq!(node.unconfirmed_count(), 1);
    let ack = msg("n2", "n1", 1, Some(forwarded_id), BodyType::BroadcastOk);
    let replies = node.reply(&ack).unwrap();
    assert!(replies.is_empty());
    assert_eq!(node.unconfirmed_count(), 0);
    // the duplicate acknowledgment of an at-least-once transport
    let ack_again = msg("n2", "n1", 2, Some(forwarded_id), BodyType::BroadcastOk);
    node.reply(&ack_again).unwrap();
    assert_eq!(node.unconfirmed_count(), 0);
}

#[test]
fn acknowledgment_only_prunes_the_matching_peer() {
    let mut node = configured_node(&["n2", "n3"]);
    let out = node
        .step(&msg("c1", "n1", 7, None, BodyType::Broadcast { message: 5 }))
        .unwrap();
    assert_eq!(node.unconfirmed_count(), 2);
    let ack = msg("n2", "n1", 1, Some(out[1].body.msg_id), BodyType::BroadcastOk);
    node.reply(&ack).unwrap();
    assert_eq!(node.unconfirmed_count(), 1);
}

#[test]
fn dispatcher_routes_replies_and_requests() {
    let mut node = configured_node(&["n2"]);
    let out = handle(
        &mut node,
        &msg("c1", "n1", 7, None, BodyType::Broadcast { message: 5 }),
    )
    .unwrap();
    let forwarded_id = out[1].body.msg_id;
    assert_eq!(node.unconfirmed_count(), 1);
    let replies = handle(
        &mut node,
        &msg("n2", "n1", 1, Some(forwarded_id), BodyType::BroadcastOk),
    )
    .unwrap();
    assert!(replies.is_empty());
    assert_eq!(node.unconfirmed_count(), 0);
}

#[test]
fn envelope_for_another_node_is_dropped() {
    let mut node = configured_node(&["n2"]);
    let out = node
        .step(&msg("c1", "n9", 7, None, BodyType::Broadcast { message: 5 }))
        .unwrap();
    assert!(out.is_empty());
    assert_eq!(read_back(&node, 8), Vec::<i64>::new());
}

#[test]
fn unknown_request_kind_is_a_protocol_error() {
    let mut node = configured_node(&["n2"]);
    let r = node.step(&msg("c1", "n1", 7, None, BodyType::Echo { echo: None }));
    assert!(matches!(r, Err(NodeError::UnexpectedType)));
}

#[test]
fn unhandled_reply_kind_is_ignored() {
    let mut node = configured_node(&["n2"]);
    let out = node.reply(&msg("c1", "n1", 7, Some(1), BodyType::TopologyOk)).unwrap();
    assert!(out.is_empty());
    assert_eq!(node.unconfirmed_count(), 0);
}
