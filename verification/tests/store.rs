use turn_relay::messages::{MessageType, ProtocolViolation, StateActorMessage};
use turn_relay::state_actor::StateActor;

fn insert_request(patient_id: i32, turn: &str) -> StateActorMessage {
    StateActorMessage {
        message_type: MessageType::INPUT,
        patient_id: Some(patient_id),
        single_data: Some(String::from(turn)),
        block_data: None,
    }
}

fn flush_request() -> StateActorMessage {
    StateActorMessage {
        message_type: MessageType::OUTPUT,
        patient_id: None,
        single_data: None,
        block_data: None,
    }
}

#[test]
fn order_preserved_within_patient() {
    let mut actor = StateActor::new();
    actor.insert_message(1, String::from("1>>hi>>hello>>"));
    actor.insert_message(1, String::from("2>>ok>>fine>>"));
    actor.insert_message(1, String::from("3>>bye>>later>>"));
    let taken = actor.take_next().expect("patient 1 is pending");
    assert_eq!(taken.0, 1);
    assert_eq!(
        taken.1,
        vec![
            String::from("1>>hi>>hello>>"),
            String::from("2>>ok>>fine>>"),
            String::from("3>>bye>>later>>"),
        ]
    );
}

#[test]
fn fifo_across_patients() {
    let mut actor = StateActor::new();
    actor.insert_message(10, String::from("1>>a>>b>>"));
    actor.insert_message(20, String::from("1>>c>>d>>"));
    actor.insert_message(10, String::from("2>>e>>f>>"));
    let first = actor.take_next().expect("patient 10 is pending");
    assert_eq!(first.0, 10);
    assert_eq!(
        first.1,
        vec![String::from("1>>a>>b>>"), String::from("2>>e>>f>>")]
    );
    let second = actor.take_next().expect("patient 20 is pending");
    assert_eq!(second.0, 20);
    assert_eq!(second.1, vec![String::from("1>>c>>d>>")]);
    assert!(actor.take_next().is_none());
}

#[test]
fn pending_patient_queued_once() {
    let mut actor = StateActor::new();
    actor.insert_message(5, String::from("1>>x>>y>>"));
    actor.insert_message(5, String::from("2>>x>>y>>"));
    actor.insert_message(5, String::from("3>>x>>y>>"));
    let taken = actor.take_next().expect("patient 5 is pending");
    assert_eq!(taken.0, 5);
    assert_eq!(taken.1.len(), 3);
    assert!(actor.take_next().is_none());
}

#[test]
fn flush_removes_patient_until_reinserted() {
    let mut actor = StateActor::new();
    actor.insert_message(9, String::from("1>>q>>r>>"));
    let taken = actor.take_next().expect("patient 9 is pending");
    assert_eq!(taken.0, 9);
    assert!(actor.get_message_data(9).is_none());
    assert!(actor.take_next().is_none());
    actor.insert_message(9, String::from("2>>s>>t>>"));
    let again = actor.get_message_data(9).expect("patient 9 is pending again");
    assert_eq!(again, vec![String::from("2>>s>>t>>")]);
}

#[test]
fn get_message_data_absent_patient() {
    let mut actor = StateActor::new();
    assert!(actor.get_message_data(1).is_none());
    actor.insert_message(2, String::from("1>>a>>b>>"));
    assert!(actor.get_message_data(1).is_none());
    let data = actor.get_message_data(2).expect("patient 2 is pending");
    assert_eq!(data, vec![String::from("1>>a>>b>>")]);
}

#[test]
fn handle_message_inserts_without_reply() {
    let mut actor = StateActor::new();
    let reply = actor
        .handle_message(insert_request(1, "1>>hi>>hello>>"))
        .expect("an INPUT message is no violation");
    assert!(reply.is_none());
    let taken = actor.take_next().expect("patient 1 is pending");
    assert_eq!(taken.1, vec![String::from("1>>hi>>hello>>")]);
}

#[test]
fn empty_flush_yields_empty_reply() {
    let mut actor = StateActor::new();
    let reply = actor
        .handle_message(flush_request())
        .expect("a flush request is no violation")
        .expect("a flush request always gets a reply");
    assert!(matches!(reply.message_type, MessageType::EMPTY));
    assert!(reply.patient_id.is_none());
    assert!(reply.single_data.is_none());
    assert!(reply.block_data.is_none());
}

#[test]
fn flush_reply_carries_whole_buffer() {
    let mut actor = StateActor::new();
    actor.insert_message(1, String::from("1>>hi>>hello>>"));
    actor.insert_message(1, String::from("2>>bye>>later>>"));
    let reply = actor
        .handle_message(flush_request())
        .expect("a flush request is no violation")
        .expect("a flush request always gets a reply");
    assert!(matches!(reply.message_type, MessageType::OUTPUT));
    assert_eq!(reply.patient_id, Some(1));
    assert!(reply.single_data.is_none());
    assert_eq!(
        reply.block_data,
        Some(vec![
            String::from("1>>hi>>hello>>"),
            String::from("2>>bye>>later>>"),
        ])
    );
}

#[test]
fn empty_inbound_tag_is_a_violation() {
    let mut actor = StateActor::new();
    let message = StateActorMessage {
        message_type: MessageType::EMPTY,
        patient_id: None,
        single_data: None,
        block_data: None,
    };
    let result = actor.handle_message(message);
    assert_eq!(result.unwrap_err(), ProtocolViolation::WrongInboundTag);
}
