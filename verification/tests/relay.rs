use turn_relay::lib_runner::{librarian_request, process_reply};
use turn_relay::messages::{MessageType, ProtocolViolation, StateActorMessage};
use turn_relay::state_actor::StateActor;
use turn_relay::turns::{format_turn, join_turns};

#[test]
fn join_two_turns() {
    let turns = vec![
        String::from("1>>hi>>hello>>"),
        String::from("2>>ok>>fine>>"),
    ];
    assert_eq!(join_turns(&turns), "1>>hi>>hello>>$2>>ok>>fine>>");
}

#[test]
fn join_edge_cases() {
    let none: Vec<String> = vec![];
    assert_eq!(join_turns(&none), "");
    let one = vec![String::from("1>>a>>b>>")];
    assert_eq!(join_turns(&one), "1>>a>>b>>");
    let empties = vec![String::new(), String::new()];
    assert_eq!(join_turns(&empties), "$");
}

#[test]
fn format_turn_exact() {
    assert_eq!(format_turn(1, "hi", "hello"), "1>>hi>>hello>>");
    assert_eq!(format_turn(42, "a", "b"), "42>>a>>b>>");
    assert_eq!(format_turn(0, "", ""), "0>>>>>>");
    assert_eq!(format_turn(-5, "a", "b"), "-5>>a>>b>>");
    assert_eq!(
        format_turn(2147483647, "x", "y"),
        "2147483647>>x>>y>>"
    );
    assert_eq!(
        format_turn(-2147483648, "x", "y"),
        "-2147483648>>x>>y>>"
    );
}

#[test]
fn librarian_request_is_a_bare_flush_request() {
    let m = librarian_request();
    assert!(matches!(m.message_type, MessageType::OUTPUT));
    assert!(m.patient_id.is_none());
    assert!(m.single_data.is_none());
    assert!(m.block_data.is_none());
}

#[test]
fn reply_with_buffer_is_delivered_joined() {
    let reply = StateActorMessage {
        message_type: MessageType::OUTPUT,
        patient_id: Some(3),
        single_data: None,
        block_data: Some(vec![String::from("1>>q>>a>>"), String::from("2>>q>>a>>")]),
    };
    let payload = process_reply(&reply)
        .expect("a well-formed reply is no violation")
        .expect("a reply with a buffer obliges a delivery");
    assert_eq!(payload.0, 3);
    assert_eq!(payload.1, "1>>q>>a>>$2>>q>>a>>");
}

#[test]
fn empty_reply_needs_no_delivery() {
    let reply = StateActorMessage {
        message_type: MessageType::EMPTY,
        patient_id: None,
        single_data: None,
        block_data: None,
    };
    let outcome = process_reply(&reply).expect("an EMPTY reply is no violation");
    assert!(outcome.is_none());
}

#[test]
fn outbound_violations_are_fatal() {
    let input_outbound = StateActorMessage {
        message_type: MessageType::INPUT,
        patient_id: Some(1),
        single_data: Some(String::from("1>>a>>b>>")),
        block_data: None,
    };
    assert_eq!(
        process_reply(&input_outbound).unwrap_err(),
        ProtocolViolation::WrongOutboundTag
    );
    let missing_buffer = StateActorMessage {
        message_type: MessageType::OUTPUT,
        patient_id: Some(1),
        single_data: None,
        block_data: None,
    };
    assert_eq!(
        process_reply(&missing_buffer).unwrap_err(),
        ProtocolViolation::MissingReplyPayload
    );
    let missing_id = StateActorMessage {
        message_type: MessageType::OUTPUT,
        patient_id: None,
        single_data: None,
        block_data: Some(vec![String::from("1>>a>>b>>")]),
    };
    assert_eq!(
        process_reply(&missing_id).unwrap_err(),
        ProtocolViolation::MissingReplyPayload
    );
}

#[test]
fn full_flush_cycle_scenario() {
    let mut actor = StateActor::new();
    actor.insert_message(1, format_turn(1, "hi", "hello"));
    actor.insert_message(1, format_turn(2, "bye", "later"));

    let reply = actor
        .handle_message(librarian_request())
        .expect("a flush request is no violation")
        .expect("a flush request always gets a reply");
    assert!(matches!(reply.message_type, MessageType::OUTPUT));
    assert_eq!(reply.patient_id, Some(1));
    assert_eq!(
        reply.block_data,
        Some(vec![
            String::from("1>>hi>>hello>>"),
            String::from("2>>bye>>later>>"),
        ])
    );
    let payload = process_reply(&reply)
        .expect("the reply is well formed")
        .expect("the reply obliges a delivery");
    assert_eq!(payload.0, 1);
    assert_eq!(payload.1, "1>>hi>>hello>>$2>>bye>>later>>");

    let second = actor
        .handle_message(librarian_request())
        .expect("a flush request is no violation")
        .expect("a flush request always gets a reply");
    assert!(matches!(second.message_type, MessageType::EMPTY));
    let outcome = process_reply(&second).expect("an EMPTY reply is no violation");
    assert!(outcome.is_none(), "no delivery when nothing was pending");
}
