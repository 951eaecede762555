//! The message protocol that binds the state actor to the lib runner.

use vstd::prelude::*;

verus! {

/// The type of message being sent across a channel.
///
/// `INPUT` carries a turn to insert, `OUTPUT` is either a flush request
/// (no payload, inbound) or a flush reply (payload, outbound), and `EMPTY`
/// reports that no patient was pending at request time.
#[allow(non_camel_case_types)]
#[derive(Clone, Copy, PartialEq, Eq, Structural, Debug)]
pub enum MessageType {
    INPUT,
    OUTPUT,
    EMPTY,
}

/// A message exchanged with the state actor over a channel.
///
/// Which optional fields must be populated depends on `message_type` and on
/// the direction of travel; see [`StateActorMessage::wf_inbound`] and
/// [`StateActorMessage::wf_outbound`].
#[derive(Debug)]
pub struct StateActorMessage {
    pub message_type: MessageType,
    pub patient_id: Option<i32>,
    pub single_data: Option<String>,
    pub block_data: Option<Vec<String>>,
}

impl StateActorMessage {
    /// A message is well formed for the inbound channel (producers to the
    /// state actor) when an `INPUT` carries both a patient id and a turn.
    pub open spec fn wf_inbound(self) -> bool {
        self.message_type is INPUT ==> self.patient_id is Some && self.single_data is Some
    }

    /// A message is well formed for the outbound channel (state actor to the
    /// lib runner) when an `OUTPUT` reply carries both a patient id and the
    /// flushed buffer.
    pub open spec fn wf_outbound(self) -> bool {
        self.message_type is OUTPUT ==> self.patient_id is Some && self.block_data is Some
    }
}

/// A fatal defect in the use of the two channels: a tag was observed on a
/// channel direction where the protocol never produces it.
#[derive(Clone, Copy, PartialEq, Eq, Structural, Debug)]
pub enum ProtocolViolation {
    /// `EMPTY` was received on the inbound channel.
    WrongInboundTag,
    /// `INPUT` was received on the outbound channel.
    WrongOutboundTag,
    /// An `OUTPUT` reply arrived without its patient id or buffer.
    MissingReplyPayload,
}

} // verus!
