//! Messages of the peer-to-peer protocol: the signaling exchanged through the
//! API to set up a connection, and the messages on the data channel.
use vstd::prelude::*;

use crate::text::str_eq;

verus! {

/// A signaling message relayed by the API between two devices.
#[derive(Debug)]
pub enum SignalingMessage {
    /// A connection offer from `source_device_id` to `target_device_id`.
    Offer {
        session_id: String,
        graph_id: String,
        source_device_id: String,
        target_device_id: String,
        sdp: String,
    },
    /// The answer to an offer.
    Answer {
        session_id: String,
        source_device_id: String,
        target_device_id: String,
        sdp: String,
    },
    /// A network candidate for a session.
    Ice {
        session_id: String,
        source_device_id: String,
        candidate: String,
        sdp_mid: Option<String>,
        sdp_mline_index: Option<u16>,
    },
}

/// The request for a file, sent on a data channel.
#[derive(Debug)]
pub struct FileRequestMessage {
    pub path: String,
    pub sha256: String,
}

/// The notice that a file was sent completely.
#[derive(Debug)]
pub struct FileCompleteMessage {
    pub path: String,
    pub sha256: String,
    pub size: u64,
}

/// What a device does with a signaling message.
#[derive(Debug, Clone, Copy, PartialEq, Eq, Structural)]
pub enum SignalingAction {
    /// The message is for another device.
    Ignore,
    /// Answer an offer made to this device.
    AnswerOffer,
    /// Apply the answer to an offer this device made.
    ApplyAnswer,
    /// Add a network candidate to the session.
    AddIceCandidate,
}

/// What a device does with a signaling message: offers and answers are handled
/// only when they target this device; candidates always go to their session.
pub open spec fn signaling_action_of(msg: SignalingMessage, my_device_id: Seq<char>) -> SignalingAction {
    match msg {
        SignalingMessage::Offer { target_device_id, .. } => if target_device_id@ == my_device_id {
            SignalingAction::AnswerOffer
        } else {
            SignalingAction::Ignore
        },
        SignalingMessage::Answer { target_device_id, .. } => if target_device_id@ == my_device_id {
            SignalingAction::ApplyAnswer
        } else {
            SignalingAction::Ignore
        },
        SignalingMessage::Ice { .. } => SignalingAction::AddIceCandidate,
    }
}

/// What this device does with a signaling message (see `signaling_action_of`).
pub fn signaling_action(msg: &SignalingMessage, my_device_id: &str) -> (r: SignalingAction)
    ensures
        r == signaling_action_of(*msg, my_device_id@),
{
    match msg {
        SignalingMessage::Offer { target_device_id, .. } => {
            if str_eq(target_device_id.as_str(), my_device_id) {
                SignalingAction::AnswerOffer
            } else {
                SignalingAction::Ignore
            }
        },
        SignalingMessage::Answer { target_device_id, .. } => {
            if str_eq(target_device_id.as_str(), my_device_id) {
                SignalingAction::ApplyAnswer
            } else {
                SignalingAction::Ignore
            }
        },
        SignalingMessage::Ice { .. } => SignalingAction::AddIceCandidate,
    }
}

} // verus!
