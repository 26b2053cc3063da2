//! The records of a usage log, as one line of the log holds them.

use crate::ids::{entry_hash, MessageId, ModelId, RequestId, SessionId};
use vstd::prelude::*;

verus! {

/// Cache-write tokens split by retention tier.
#[derive(Debug, Clone)]
pub struct CacheCreation {
    pub ephemeral_5m_input_tokens: Option<u32>,
    pub ephemeral_1h_input_tokens: Option<u32>,
}

/// Token counts of one message. A count that is absent counts as zero.
#[derive(Debug, Clone)]
pub struct Usage {
    pub input_tokens: Option<u32>,
    pub output_tokens: Option<u32>,
    pub cache_creation_input_tokens: Option<u32>,
    pub cache_read_input_tokens: Option<u32>,
    pub cache_creation: Option<CacheCreation>,
    pub service_tier: Option<String>,
}

/// The message of a record.
#[derive(Debug, Clone)]
pub struct Message {
    pub id: Option<MessageId>,
    pub model: Option<ModelId>,
    pub usage: Option<Usage>,
}

/// One line of a usage log. Every field is optional: the logs are written on
/// a best-effort basis. A cost is a whole number of units of 1e-8 USD.
#[derive(Debug, Clone)]
pub struct UsageEntryData {
    pub timestamp: Option<String>,
    pub model: Option<ModelId>,
    pub cost_usd: Option<i64>,
    pub message: Option<Message>,
    pub request_id: Option<RequestId>,
}

/// A record together with the session that its log file belongs to.
#[derive(Debug, Clone)]
pub struct UsageEntry {
    pub data: UsageEntryData,
    pub session_id: SessionId,
}

impl UsageEntryData {
    /// The text that identifies the record, when it carries both a message
    /// identifier and a request identifier.
    pub open spec fn identity(&self) -> Option<Seq<char>> {
        match (self.message, self.request_id) {
            (Some(message), Some(request_id)) => match message.id {
                Some(message_id) => Some(entry_hash(message_id@, request_id@)),
                None => None,
            },
            _ => None,
        }
    }

    /// The timestamp's text, when the record has one.
    pub open spec fn timestamp_text(&self) -> Option<Seq<char>> {
        match self.timestamp {
            Some(t) => Some(t@),
            None => None,
        }
    }
}

impl UsageEntry {
    /// A record tagged with the session that owns it.
    pub fn from_data(data: UsageEntryData, session_id: SessionId) -> (r: Self)
        ensures
            r.data == data,
            r.session_id == session_id,
    {
        UsageEntry { data, session_id }
    }
}

} // verus!
