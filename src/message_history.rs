//! The records of the message history: direction, kind and delivery state
//! of a message, stored as small integers.
use vstd::prelude::*;

verus! {

/// Whether a message was received or sent.
#[derive(Debug, Clone, Copy, PartialEq, Eq, Structural)]
pub enum MessageDirection {
    Incoming,
    Outgoing,
}

/// The direction a stored integer stands for; unknown values read as
/// incoming.
pub open spec fn direction_of(value: i64) -> MessageDirection {
    if value == 1 {
        MessageDirection::Outgoing
    } else {
        MessageDirection::Incoming
    }
}

impl From<i64> for MessageDirection {
    fn from(value: i64) -> (r: Self)
        ensures
            r == direction_of(value),
    {
        if value == 1 {
            MessageDirection::Outgoing
        } else {
            MessageDirection::Incoming
        }
    }
}

impl vstd::std_specs::convert::FromSpecImpl<i64> for MessageDirection {
    open spec fn obeys_from_spec() -> bool {
        true
    }

    open spec fn from_spec(v: i64) -> MessageDirection {
        direction_of(v)
    }
}

impl MessageDirection {
    /// The integer a direction is stored as.
    pub fn to_i64(self) -> (r: i64)
        ensures
            direction_of(r) == self,
            r == (if self == MessageDirection::Outgoing { 1i64 } else { 0i64 }),
    {
        match self {
            MessageDirection::Incoming => 0,
            MessageDirection::Outgoing => 1,
        }
    }
}

/// What a message carries.
#[derive(Debug, Clone, Copy, PartialEq, Eq, Structural)]
pub enum MessageType {
    Text,
    BundleAnnouncement,
    System,
}

/// The message kind a stored integer stands for; unknown values read as
/// text.
pub open spec fn message_type_of(value: i64) -> MessageType {
    if value == 1 {
        MessageType::BundleAnnouncement
    } else if value == 2 {
        MessageType::System
    } else {
        MessageType::Text
    }
}

impl From<i64> for MessageType {
    fn from(value: i64) -> (r: Self)
        ensures
            r == message_type_of(value),
    {
        if value == 1 {
            MessageType::BundleAnnouncement
        } else if value == 2 {
            MessageType::System
        } else {
            MessageType::Text
        }
    }
}

impl vstd::std_specs::convert::FromSpecImpl<i64> for MessageType {
    open spec fn obeys_from_spec() -> bool {
        true
    }

    open spec fn from_spec(v: i64) -> MessageType {
        message_type_of(v)
    }
}

impl MessageType {
    /// The integer a message kind is stored as.
    pub fn to_i64(self) -> (r: i64)
        ensures
            message_type_of(r) == self,
            0 <= r <= 2,
    {
        match self {
            MessageType::Text => 0,
            MessageType::BundleAnnouncement => 1,
            MessageType::System => 2,
        }
    }
}

/// Where an outgoing message stands.
#[derive(Debug, Clone, Copy, PartialEq, Eq, Structural)]
pub enum DeliveryStatus {
    Pending,
    Sent,
    Delivered,
    Failed,
}

/// The delivery state a stored integer stands for; unknown values read as
/// pending.
pub open spec fn delivery_status_of(value: i64) -> DeliveryStatus {
    if value == 1 {
        DeliveryStatus::Sent
    } else if value == 2 {
        DeliveryStatus::Delivered
    } else if value == 3 {
        DeliveryStatus::Failed
    } else {
        DeliveryStatus::Pending
    }
}

impl From<i64> for DeliveryStatus {
    fn from(value: i64) -> (r: Self)
        ensures
            r == delivery_status_of(value),
    {
        if value == 1 {
            DeliveryStatus::Sent
        } else if value == 2 {
            DeliveryStatus::Delivered
        } else if value == 3 {
            DeliveryStatus::Failed
        } else {
            DeliveryStatus::Pending
        }
    }
}

impl vstd::std_specs::convert::FromSpecImpl<i64> for DeliveryStatus {
    open spec fn obeys_from_spec() -> bool {
        true
    }

    open spec fn from_spec(v: i64) -> DeliveryStatus {
        delivery_status_of(v)
    }
}

impl DeliveryStatus {
    /// The integer a delivery state is stored as.
    pub fn to_i64(self) -> (r: i64)
        ensures
            delivery_status_of(r) == self,
            0 <= r <= 3,
    {
        match self {
            DeliveryStatus::Pending => 0,
            DeliveryStatus::Sent => 1,
            DeliveryStatus::Delivered => 2,
            DeliveryStatus::Failed => 3,
        }
    }
}

/// A stored message.
#[derive(Debug, Clone)]
pub struct StoredMessage {
    pub id: i64,
    pub conversation_id: i64,
    pub direction: MessageDirection,
    pub timestamp: u64,
    pub message_type: MessageType,
    pub content: String,
    pub delivery_status: DeliveryStatus,
    pub was_prekey_message: bool,
    pub session_established: bool,
}

/// A conversation with one contact.
#[derive(Debug, Clone)]
pub struct Conversation {
    pub id: i64,
    pub rdx_fingerprint: String,
    pub last_message_timestamp: u64,
    pub unread_count: u32,
    pub archived: bool,
}

} // verus!
