use maelstrom_node::codec::{decode, encode};
use maelstrom_node::handler::{Machine, State};
use maelstrom_node::nodes::broadcast::BroadcastNode;
use maelstrom_node::nodes::echo::{echo_back, EchoNode};
use maelstrom_node::nodes::generate::{
    generate_id, generated, label, now, seed_text, write_decimal, GenerateNode,
};
use maelstrom_node::topology::{copy_names, distinct_names, Topology};
use maelstrom_node::types::{Body, Message, RequestBody, ResponseBody};
use maelstrom_node::utils::Failure;

fn request(msg_id: usize, body: RequestBody) -> Message {
    Message { src: "c1".to_string(), dst: "n1".to_string(), body: Body::Request { msg_id, body } }
}

fn response(in_reply_to: usize, body: ResponseBody) -> Message {
    Message {
        src: "n1".to_string(),
        dst: "c1".to_string(),
        body: Body::Response { in_reply_to, body },
    }
}

fn names(list: &[&str]) -> Vec<String> {
    list.iter().map(|name| name.to_string()).collect()
}

#[test]
fn test_step() {
    let mut node = EchoNode::default();
    let data = r#"{"src": "c1", "dest": "n1", "body": {"type": "echo", "msg_id": 1, "echo": "Please echo 35"}}"#;
    let msg = decode(data).unwrap();
    let out_msg = node.step(msg).unwrap();
    let out = encode(&out_msg);
    assert_eq!(
        out,
        "{\"src\":\"n1\",\"dest\":\"c1\",\"body\":{\"in_reply_to\":1,\"type\":\"echo_ok\",\"echo\":\"Please echo 35\"}}"
    );
}

#[test]
fn respond_swaps_the_ends_and_names_the_request() {
    let input = Message {
        src: "a".to_string(),
        dst: "b".to_string(),
        body: Body::Request { msg_id: 42, body: RequestBody::Read {} },
    };
    let output = input.respond(|msg_id, body| {
        assert_eq!(msg_id, 42);
        assert_eq!(body, RequestBody::Read {});
        Ok(ResponseBody::ReadOk { messages: vec![msg_id] })
    });
    assert_eq!(
        output,
        Ok(Message {
            src: "b".to_string(),
            dst: "a".to_string(),
            body: Body::Response {
                in_reply_to: 42,
                body: ResponseBody::ReadOk { messages: vec![42] }
            },
        })
    );
}

#[test]
fn respond_hands_on_the_failure_of_the_callback() {
    let output = request(1, RequestBody::Read {}).respond(|_, _| Err(Failure::Clock));
    assert_eq!(output, Err(Failure::Clock));
}

#[test]
fn respond_fails_on_a_response_and_does_not_call_back() {
    let output = response(1, ResponseBody::InitOk {})
        .respond(|_, _| panic!("a response was handed to the callback"));
    assert_eq!(output, Err(Failure::NotARequest));
}

#[test]
fn echo_sends_the_text_back() {
    assert_eq!(
        echo_back(1, RequestBody::Echo { echo: "x".to_string() }),
        Ok(ResponseBody::EchoOk { echo: "x".to_string() })
    );
    assert_eq!(echo_back(1, RequestBody::Generate {}), Err(Failure::Unsupported));
}

#[test]
fn echo_rejects_every_other_kind() {
    let mut node = EchoNode::default();
    let others = [
        RequestBody::Init { node_id: "n1".to_string(), node_ids: names(&["n1"]) },
        RequestBody::Generate {},
        RequestBody::Broadcast { message: 1 },
        RequestBody::Topology { topology: Topology::new() },
        RequestBody::Read {},
    ];
    for body in others {
        assert_eq!(node.step(request(1, body)), Err(Failure::Unsupported));
    }
    assert_eq!(
        node.step(response(1, ResponseBody::EchoOk { echo: "x".to_string() })),
        Err(Failure::NotARequest)
    );
}

#[test]
fn a_number_is_written_in_decimal_digits() {
    for (number, digits) in [
        (0u128, "0"),
        (7, "7"),
        (10, "10"),
        (109, "109"),
        (1234567890, "1234567890"),
        (u128::MAX, "340282366920938463463374607431768211455"),
    ] {
        let mut text = String::from("n=");
        write_decimal(number, &mut text);
        assert_eq!(text, format!("n={}", digits));
    }
}

#[test]
fn the_seed_holds_the_identifier_and_the_time() {
    assert_eq!(seed_text(1, 1000), "1 1000");
    assert_eq!(seed_text(0, 0), "0 0");
    assert_eq!(seed_text(42, 1700000000123), "42 1700000000123");
}

#[test]
fn the_label_stands_before_the_hash() {
    assert_eq!(label(&Some("n1".to_string()), "abc"), "n1-abc");
    assert_eq!(label(&None, "abc"), "0-abc");
    assert_eq!(label(&Some(String::new()), ""), "-");
}

#[test]
fn an_identifier_is_the_label_and_the_sha256_of_the_seed() {
    assert_eq!(
        generate_id(&Some("n1".to_string()), 1, 1000),
        "n1-73046337e229e26ab780c13434bdb6371bfea35834f7b08f04e44dfafbaeb7bd"
    );
    assert_eq!(
        generate_id(&None, 7, 0),
        "0-9fc5a7d9f8ce0cd9160cd957b850ac145851c8f3754519255778a96c918588ab"
    );
}

#[test]
fn identifiers_differ_by_node_by_request_and_by_time() {
    let one = generate_id(&Some("n1".to_string()), 1, 1000);
    assert_ne!(one, generate_id(&Some("n2".to_string()), 1, 1000));
    assert_ne!(one, generate_id(&Some("n1".to_string()), 2, 1000));
    assert_ne!(one, generate_id(&Some("n1".to_string()), 1, 1001));
    assert_eq!(one, generate_id(&Some("n1".to_string()), 1, 1000));
}

#[test]
fn without_a_time_no_identifier_is_made() {
    assert_eq!(generated(&None, 1, None), Err(Failure::Clock));
    assert_eq!(
        generated(&Some("n1".to_string()), 1, Some(1000)),
        Ok(ResponseBody::GenerateOk {
            id: "n1-73046337e229e26ab780c13434bdb6371bfea35834f7b08f04e44dfafbaeb7bd".to_string()
        })
    );
}

#[test]
fn the_clock_stands_behind_the_start_of_the_epoch() {
    let first = now().unwrap();
    let second = now().unwrap();
    assert!(first > 1_600_000_000_000);
    assert!(second >= first);
}

#[test]
fn generate_answers_with_an_identifier_under_the_node_name() {
    let mut node = GenerateNode::default();
    node.set_state(State::Id { id: "n7".to_string() });
    let before = now().unwrap();
    let output = node.step(request(3, RequestBody::Generate {})).unwrap();
    let after = now().unwrap();
    assert_eq!(output.src, "n1");
    assert_eq!(output.dst, "c1");
    match output.body {
        Body::Response { in_reply_to, body: ResponseBody::GenerateOk { id } } => {
            assert_eq!(in_reply_to, 3);
            assert_eq!(id.len(), 3 + 64);
            assert!(id.starts_with("n7-"));
            assert!((before..=after).any(|millis| generate_id(&Some("n7".to_string()), 3, millis) == id));
        }
        other => panic!("no generate_ok: {:?}", other),
    }
}

#[test]
fn generate_without_a_name_labels_with_zero() {
    let mut node = GenerateNode::default();
    let output = node.step(request(3, RequestBody::Generate {})).unwrap();
    match output.body {
        Body::Response { body: ResponseBody::GenerateOk { id }, .. } => {
            assert!(id.starts_with("0-"));
        }
        other => panic!("no generate_ok: {:?}", other),
    }
}

#[test]
fn generate_rejects_every_other_kind() {
    let mut node = GenerateNode::default();
    assert_eq!(
        node.step(request(1, RequestBody::Echo { echo: "x".to_string() })),
        Err(Failure::Unsupported)
    );
    assert_eq!(node.step(request(1, RequestBody::Read {})), Err(Failure::Unsupported));
    assert_eq!(
        node.step(response(1, ResponseBody::GenerateOk { id: "x".to_string() })),
        Err(Failure::NotARequest)
    );
}

#[test]
fn broadcast_then_read_gives_the_values_in_the_order_of_receipt() {
    let mut node = BroadcastNode::default();
    node.set_state(State::Id { id: "n1".to_string() });
    let topology = Topology::new().with("n1".to_string(), vec![]);
    assert_eq!(
        node.step(request(1, RequestBody::Topology { topology })),
        Ok(response(1, ResponseBody::TopologyOk {}))
    );
    assert!(node.neighbors().is_empty());
    assert_eq!(
        node.step(request(2, RequestBody::Broadcast { message: 5 })),
        Ok(response(2, ResponseBody::BroadcastOk {}))
    );
    assert_eq!(
        node.step(request(3, RequestBody::Broadcast { message: 9 })),
        Ok(response(3, ResponseBody::BroadcastOk {}))
    );
    assert_eq!(
        node.step(request(4, RequestBody::Read {})),
        Ok(response(4, ResponseBody::ReadOk { messages: vec![5, 9] }))
    );
    assert_eq!(node.messages(), &vec![5, 9]);
}

#[test]
fn broadcast_keeps_repeated_values_and_their_order() {
    let mut node = BroadcastNode::default();
    for (msg_id, message) in [9usize, 5, 9, 9, 1].into_iter().enumerate() {
        node.step(request(msg_id, RequestBody::Broadcast { message })).unwrap();
    }
    assert_eq!(
        node.step(request(9, RequestBody::Read {})),
        Ok(response(9, ResponseBody::ReadOk { messages: vec![9, 5, 9, 9, 1] }))
    );
}

#[test]
fn read_before_any_broadcast_gives_nothing() {
    let mut node = BroadcastNode::default();
    assert_eq!(
        node.step(request(1, RequestBody::Read {})),
        Ok(response(1, ResponseBody::ReadOk { messages: vec![] }))
    );
}

#[test]
fn topology_gives_the_node_its_own_neighbors() {
    let topology = Topology::new()
        .with("n1".to_string(), names(&["n2", "n3"]))
        .with("n2".to_string(), names(&["n1"]));
    let mut node = BroadcastNode::default();
    node.set_state(State::Id { id: "n1".to_string() });
    node.step(request(1, RequestBody::Topology { topology: topology.clone() })).unwrap();
    assert_eq!(node.neighbors(), &names(&["n2", "n3"]));

    let absent = Topology::new().with("n2".to_string(), names(&["n1"]));
    node.step(request(2, RequestBody::Topology { topology: absent })).unwrap();
    assert!(node.neighbors().is_empty());

    let mut unnamed = BroadcastNode::default();
    unnamed.step(request(1, RequestBody::Topology { topology })).unwrap();
    assert!(unnamed.neighbors().is_empty());
}

#[test]
fn broadcast_rejects_every_other_kind_and_keeps_its_values() {
    let mut node = BroadcastNode::default();
    node.step(request(1, RequestBody::Broadcast { message: 5 })).unwrap();
    assert_eq!(
        node.step(request(2, RequestBody::Echo { echo: "x".to_string() })),
        Err(Failure::Unsupported)
    );
    assert_eq!(node.step(request(3, RequestBody::Generate {})), Err(Failure::Unsupported));
    assert_eq!(
        node.step(request(
            4,
            RequestBody::Init { node_id: "n1".to_string(), node_ids: names(&["n1"]) }
        )),
        Err(Failure::Unsupported)
    );
    assert_eq!(node.step(response(5, ResponseBody::BroadcastOk {})), Err(Failure::NotARequest));
    assert_eq!(node.messages(), &vec![5]);
}

#[test]
fn a_topology_keeps_one_entry_for_each_node_and_each_neighbor_once() {
    let topology = Topology::new()
        .with("n1".to_string(), names(&["n2", "n2", "n3", "n2"]))
        .with("n2".to_string(), names(&["n1"]))
        .with("n1".to_string(), names(&["n4"]));
    assert_eq!(topology.len(), 2);
    assert_eq!(topology.node_at(0), "n1");
    assert_eq!(topology.neighbors_at(0), &names(&["n4"]));
    assert_eq!(topology.node_at(1), "n2");
    assert_eq!(topology.neighbors_at(1), &names(&["n1"]));
    assert_eq!(topology.neighbors_of(&"n1".to_string()), names(&["n4"]));
    assert_eq!(topology.neighbors_of(&"n3".to_string()), names(&[]));
    assert_eq!(Topology::new().len(), 0);
    assert_eq!(topology.clone(), topology);

    let first = Topology::new().with("n1".to_string(), names(&["n2", "n2", "n3", "n2"]));
    assert_eq!(first.neighbors_of(&"n1".to_string()), names(&["n2", "n3"]));
}

#[test]
fn names_are_kept_where_they_stand_first() {
    assert_eq!(distinct_names(names(&["b", "a", "b", "c", "a"])), names(&["b", "a", "c"]));
    assert_eq!(distinct_names(names(&[])), names(&[]));
    assert_eq!(copy_names(&names(&["b", "a", "b"])), names(&["b", "a", "b"]));
}
