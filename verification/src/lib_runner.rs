//! Decision logic of the lib runner: the actor that periodically requests a
//! flush and delivers the flushed buffer to the librarian collector.
//!
//! The timer, the channels and the HTTP delivery are I/O and live with the
//! caller; what is decided here is which message starts a flush cycle and
//! what, if anything, a reply obliges the runner to deliver.

use vstd::prelude::*;

use crate::messages::{MessageType, ProtocolViolation, StateActorMessage};
use crate::turns::{join_spec, join_turns};

verus! {

/// The message that starts one flush cycle: an `OUTPUT` request with no
/// payload.
pub fn librarian_request() -> (r: StateActorMessage)
    ensures
        r.message_type is OUTPUT,
        r.patient_id is None,
        r.single_data is None,
        r.block_data is None,
        r.wf_inbound(),
{
    StateActorMessage {
        message_type: MessageType::OUTPUT,
        patient_id: None,
        single_data: None,
        block_data: None,
    }
}

/// Decides what one reply from the state actor obliges the lib runner to do.
///
/// An `EMPTY` reply ends the cycle with no delivery. An `OUTPUT` reply yields
/// the delivery payload: the patient id and the buffer's turns joined with
/// the `$` separator. Anything else on the outbound channel — an `INPUT`
/// tag, or an `OUTPUT` reply missing its payload — is a protocol violation
/// and fatal to the runner.
pub fn process_reply(message: &StateActorMessage) -> (r: Result<
    Option<(i32, String)>,
    ProtocolViolation,
>)
    ensures
        message.message_type is EMPTY ==> (r matches Ok(p) && p is None),
        message.message_type is INPUT ==> r == Err::<Option<(i32, String)>, ProtocolViolation>(
            ProtocolViolation::WrongOutboundTag,
        ),
        message.message_type is OUTPUT && message.wf_outbound() ==> (r matches Ok(p)
            && p matches Some(pair) && pair.0 == message.patient_id->0 && pair.1@ == join_spec(
            message.block_data->0.deep_view(),
        )),
        message.message_type is OUTPUT && !message.wf_outbound() ==> r == Err::<
            Option<(i32, String)>,
            ProtocolViolation,
        >(ProtocolViolation::MissingReplyPayload),
{
    match message.message_type {
        MessageType::EMPTY => Ok(None),
        MessageType::INPUT => Err(ProtocolViolation::WrongOutboundTag),
        MessageType::OUTPUT => {
            match &message.patient_id {
                Some(patient_id) => {
                    match &message.block_data {
                        Some(data) => {
                            let joined = join_turns(data);
                            Ok(Some((*patient_id, joined)))
                        },
                        None => Err(ProtocolViolation::MissingReplyPayload),
                    }
                },
                None => Err(ProtocolViolation::MissingReplyPayload),
            }
        },
    }
}

} // verus!
