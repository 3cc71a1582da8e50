use maelstrom_node::codec::{decode, encode};
use maelstrom_node::handler::{acknowledge, dispatch, handle, run, Machine, State, Step};
use maelstrom_node::nodes::broadcast::BroadcastNode;
use maelstrom_node::nodes::echo::EchoNode;
use maelstrom_node::nodes::generate::GenerateNode;
use maelstrom_node::types::{Body, Message, RequestBody, ResponseBody};
use maelstrom_node::utils::{Consume, DecodeError, Failure};

fn request(msg_id: usize, body: RequestBody) -> Message {
    Message { src: "c1".to_string(), dst: "n1".to_string(), body: Body::Request { msg_id, body } }
}

fn response(in_reply_to: usize, body: ResponseBody) -> Message {
    Message {
        src: "n1".to_string(),
        dst: "c1".to_string(),
        body: Body::Response { in_reply_to, body },
    }
}

fn init(msg_id: usize) -> Message {
    request(msg_id, RequestBody::Init { node_id: "n1".to_string(), node_ids: vec!["n1".to_string()] })
}

fn echo(msg_id: usize, text: &str) -> Message {
    request(msg_id, RequestBody::Echo { echo: text.to_string() })
}

fn echoed(in_reply_to: usize, text: &str) -> Message {
    response(in_reply_to, ResponseBody::EchoOk { echo: text.to_string() })
}

fn lines(steps: &[Step]) -> Vec<String> {
    steps
        .iter()
        .filter_map(|step| match step {
            Step::Write(message) => Some(encode(message)),
            Step::Report(_) => None,
        })
        .collect()
}

#[test]
fn init_is_answered_by_init_ok() {
    let input = r#"{"src":"c1","dest":"n1","body":{"type":"init","msg_id":1,"node_id":"n1","node_ids":["n1"]}}"#;
    let mut node = EchoNode::default();
    let output = node.handshake(decode(input).unwrap()).unwrap();
    assert_eq!(
        encode(&output),
        r#"{"src":"n1","dest":"c1","body":{"in_reply_to":1,"type":"init_ok"}}"#
    );
}

#[test]
fn echo_after_init_is_answered_with_the_ends_swapped() {
    let inputs = vec![
        decode(r#"{"src":"c1","dest":"n1","body":{"type":"init","msg_id":1,"node_id":"n1","node_ids":["n1"]}}"#),
        decode(r#"{"src":"c1","dest":"n1","body":{"type":"echo","msg_id":1,"echo":"Please echo 35"}}"#),
    ];
    let steps = handle(EchoNode::default(), inputs).unwrap();
    assert_eq!(
        lines(&steps),
        vec![
            r#"{"src":"n1","dest":"c1","body":{"in_reply_to":1,"type":"init_ok"}}"#.to_string(),
            r#"{"src":"n1","dest":"c1","body":{"in_reply_to":1,"type":"echo_ok","echo":"Please echo 35"}}"#.to_string(),
        ]
    );
}

#[test]
fn the_handshake_gives_the_node_its_name() {
    let mut node = GenerateNode::default();
    node.handshake(request(
        1,
        RequestBody::Init { node_id: "n5".to_string(), node_ids: vec!["n5".to_string()] },
    ))
    .unwrap();
    let output = node.step(request(2, RequestBody::Generate {})).unwrap();
    match output.body {
        Body::Response { body: ResponseBody::GenerateOk { id }, .. } => {
            assert!(id.starts_with("n5-"));
        }
        other => panic!("no generate_ok: {:?}", other),
    }
}

#[test]
fn the_handshake_answers_an_init_and_nothing_else() {
    assert_eq!(
        acknowledge(1, RequestBody::Init { node_id: "n1".to_string(), node_ids: vec![] }),
        Ok(ResponseBody::InitOk {})
    );
    assert_eq!(acknowledge(1, RequestBody::Read {}), Err(Failure::NotInit));
}

#[test]
fn a_first_message_that_is_no_init_fails_the_run() {
    let others = [
        echo(1, "x"),
        request(1, RequestBody::Generate {}),
        request(1, RequestBody::Broadcast { message: 1 }),
        request(1, RequestBody::Read {}),
    ];
    for other in others {
        let mut node = EchoNode::default();
        assert_eq!(node.handshake(other.clone()), Err(Failure::NotInit));
        let inputs = vec![Ok(other), Ok(init(2)), Ok(echo(3, "x"))];
        assert_eq!(handle(EchoNode::default(), inputs), Err(Failure::NotInit));
    }
}

#[test]
fn a_first_message_that_is_a_response_fails_the_run() {
    let first = response(1, ResponseBody::InitOk {});
    let mut node = EchoNode::default();
    assert_eq!(node.handshake(first.clone()), Err(Failure::NotARequest));
    assert_eq!(handle(EchoNode::default(), vec![Ok(first)]), Err(Failure::NotARequest));
}

#[test]
fn a_failed_handshake_leaves_the_node_without_a_name() {
    let mut node = GenerateNode::default();
    assert_eq!(node.handshake(echo(1, "x")), Err(Failure::NotInit));
    let output = node.step(request(2, RequestBody::Generate {})).unwrap();
    match output.body {
        Body::Response { body: ResponseBody::GenerateOk { id }, .. } => {
            assert!(id.starts_with("0-"));
        }
        other => panic!("no generate_ok: {:?}", other),
    }
}

#[test]
fn an_empty_input_fails_the_run() {
    assert_eq!(handle(EchoNode::default(), vec![]), Err(Failure::NoHandshake));
}

#[test]
fn a_first_line_that_is_no_message_fails_the_run() {
    let inputs = vec![decode("not json"), Ok(init(1))];
    assert_eq!(
        handle(EchoNode::default(), inputs),
        Err(Failure::Decode(DecodeError::Syntax))
    );
    let inputs = vec![decode("{}"), Ok(init(1))];
    assert_eq!(handle(EchoNode::default(), inputs), Err(Failure::Decode(DecodeError::Shape)));
}

#[test]
fn every_request_gets_its_own_response_in_order() {
    let mut inputs = vec![Ok(init(100))];
    for msg_id in [7usize, 3, 12, 1, 99] {
        inputs.push(Ok(echo(msg_id, &format!("text {}", msg_id))));
    }
    let steps = handle(EchoNode::default(), inputs).unwrap();
    assert_eq!(
        steps,
        vec![
            Step::Write(response(100, ResponseBody::InitOk {})),
            Step::Write(echoed(7, "text 7")),
            Step::Write(echoed(3, "text 3")),
            Step::Write(echoed(12, "text 12")),
            Step::Write(echoed(1, "text 1")),
            Step::Write(echoed(99, "text 99")),
        ]
    );
}

#[test]
fn a_line_that_is_no_message_is_reported_and_the_run_goes_on() {
    let inputs = vec![
        Ok(init(1)),
        Ok(echo(2, "a")),
        decode("{ not json"),
        Ok(echo(3, "b")),
        decode(r#"{"src":"c1","dest":"n1","body":{"type":"nothing","msg_id":4}}"#),
        Ok(echo(5, "c")),
    ];
    let steps = handle(EchoNode::default(), inputs).unwrap();
    assert_eq!(
        steps,
        vec![
            Step::Write(response(1, ResponseBody::InitOk {})),
            Step::Write(echoed(2, "a")),
            Step::Report(Failure::Decode(DecodeError::Syntax)),
            Step::Write(echoed(3, "b")),
            Step::Report(Failure::Decode(DecodeError::Shape)),
            Step::Write(echoed(5, "c")),
        ]
    );
    let without = vec![Ok(init(1)), Ok(echo(2, "a")), Ok(echo(3, "b")), Ok(echo(5, "c"))];
    assert_eq!(lines(&steps), lines(&handle(EchoNode::default(), without).unwrap()));
}

#[test]
fn an_unsupported_request_is_reported_and_the_next_is_answered() {
    let inputs = vec![Ok(init(1)), Ok(request(2, RequestBody::Read {})), Ok(echo(3, "still here"))];
    let steps = handle(EchoNode::default(), inputs).unwrap();
    assert_eq!(
        steps,
        vec![
            Step::Write(response(1, ResponseBody::InitOk {})),
            Step::Report(Failure::Unsupported),
            Step::Write(echoed(3, "still here")),
        ]
    );
    assert_eq!(
        lines(&steps),
        vec![
            r#"{"src":"n1","dest":"c1","body":{"in_reply_to":1,"type":"init_ok"}}"#.to_string(),
            r#"{"src":"n1","dest":"c1","body":{"in_reply_to":3,"type":"echo_ok","echo":"still here"}}"#.to_string(),
        ]
    );
}

#[test]
fn a_second_init_is_a_request_like_any_other() {
    let inputs = vec![Ok(init(1)), Ok(init(2)), Ok(echo(3, "x"))];
    let steps = handle(EchoNode::default(), inputs).unwrap();
    assert_eq!(
        steps,
        vec![
            Step::Write(response(1, ResponseBody::InitOk {})),
            Step::Report(Failure::Unsupported),
            Step::Write(echoed(3, "x")),
        ]
    );
}

#[test]
fn a_response_among_the_requests_is_reported() {
    let mut node = EchoNode::default();
    let steps = run(&mut node, vec![Ok(echoed(1, "x")), Ok(echo(2, "y"))]);
    assert_eq!(steps, vec![Step::Report(Failure::NotARequest), Step::Write(echoed(2, "y"))]);
}

#[test]
fn dispatch_takes_one_input_at_a_time() {
    let mut node = BroadcastNode::default();
    node.set_state(State::Id { id: "n1".to_string() });
    assert_eq!(
        dispatch(&mut node, Ok(request(1, RequestBody::Broadcast { message: 5 }))),
        Step::Write(response(1, ResponseBody::BroadcastOk {}))
    );
    assert_eq!(
        dispatch(&mut node, Err(DecodeError::Syntax)),
        Step::Report(Failure::Decode(DecodeError::Syntax))
    );
    assert_eq!(
        dispatch(&mut node, Ok(echo(2, "x"))),
        Step::Report(Failure::Unsupported)
    );
    assert_eq!(
        dispatch(&mut node, Ok(request(3, RequestBody::Read {}))),
        Step::Write(response(3, ResponseBody::ReadOk { messages: vec![5] }))
    );
}

#[test]
fn a_run_without_inputs_takes_no_step() {
    let mut node = EchoNode::default();
    assert_eq!(run(&mut node, vec![]), vec![]);
    assert_eq!(
        handle(EchoNode::default(), vec![Ok(init(1))]),
        Ok(vec![Step::Write(response(1, ResponseBody::InitOk {}))])
    );
}

#[test]
fn broadcast_run_reads_back_what_it_was_told() {
    let inputs = vec![
        decode(r#"{"src":"c1","dest":"n1","body":{"type":"init","msg_id":1,"node_id":"n1","node_ids":["n1","n2"]}}"#),
        decode(r#"{"src":"c1","dest":"n1","body":{"type":"topology","msg_id":2,"topology":{"n1":[],"n2":[]}}}"#),
        decode(r#"{"src":"c1","dest":"n1","body":{"type":"broadcast","msg_id":3,"message":5}}"#),
        decode(r#"{"src":"c1","dest":"n1","body":{"type":"broadcast","msg_id":4,"message":9}}"#),
        decode(r#"{"src":"c1","dest":"n1","body":{"type":"read","msg_id":5}}"#),
    ];
    let steps = handle(BroadcastNode::default(), inputs).unwrap();
    assert_eq!(
        lines(&steps),
        vec![
            r#"{"src":"n1","dest":"c1","body":{"in_reply_to":1,"type":"init_ok"}}"#.to_string(),
            r#"{"src":"n1","dest":"c1","body":{"in_reply_to":2,"type":"topology_ok"}}"#.to_string(),
            r#"{"src":"n1","dest":"c1","body":{"in_reply_to":3,"type":"broadcast_ok"}}"#.to_string(),
            r#"{"src":"n1","dest":"c1","body":{"in_reply_to":4,"type":"broadcast_ok"}}"#.to_string(),
            r#"{"src":"n1","dest":"c1","body":{"in_reply_to":5,"type":"read_ok","messages":[5,9]}}"#.to_string(),
        ]
    );
}

#[test]
fn consume_keeps_the_value_and_records_the_failure() {
    let mut record = vec![Failure::Clock];
    let kept: Option<u8> = Ok(5).consume(&mut record);
    assert_eq!(kept, Some(5));
    assert_eq!(record, vec![Failure::Clock]);
    let lost: Option<u8> = Err(Failure::Unsupported).consume(&mut record);
    assert_eq!(lost, None);
    assert_eq!(record, vec![Failure::Clock, Failure::Unsupported]);
}
