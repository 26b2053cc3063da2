//! Identifier types. Every identifier is a string handle whose meaning is its
//! text: two identifiers are equal exactly when their characters are.

use crate::shared::{same_allocation, share};
use crate::text::{lowercase, str_contains, text_contains, to_lowercase};
use crate::usage::UsageEntryData;
use std::sync::Arc;
use vstd::prelude::*;
use vstd::std_specs::cmp::PartialEqSpecImpl;
use vstd::std_specs::convert::FromSpecImpl;
use vstd::string::StringExecFns;

verus! {

/// Identifier of a session, recovered from the name of the log file that holds
/// the session's records. The text is shared between copies, so a copy is
/// cheap; sharing is never observable through equality.
#[derive(Debug)]
pub struct SessionId(Arc<String>);

impl View for SessionId {
    type V = Seq<char>;

    closed spec fn view(&self) -> Seq<char> {
        self.0@
    }
}

impl SessionId {
    /// Create an identifier from its text.
    pub fn new(id: &str) -> (r: Self)
        ensures
            r@ == id@,
    {
        SessionId(Arc::new(String::from_str(id)))
    }

    /// The identifier's text.
    pub fn as_str(&self) -> (r: &str)
        ensures
            r@ == self@,
    {
        self.0.as_str()
    }

    /// Consume the identifier and return its text.
    pub fn into_inner(self) -> (r: String)
        ensures
            r@ == self@,
    {
        self.0.as_str().to_owned()
    }

    /// Equality by content, trying the allocation first.
    pub fn fast_eq(&self, other: &Self) -> (r: bool)
        ensures
            r == (self@ == other@),
    {
        same_allocation(&self.0, &other.0) || *self.0 == *other.0
    }

    /// Whether both identifiers share one allocation. A `true` answer implies
    /// equal text; equal text does not imply a `true` answer.
    pub fn ptr_eq(&self, other: &Self) -> (r: bool)
        ensures
            r ==> self@ == other@,
    {
        same_allocation(&self.0, &other.0)
    }
}

impl Clone for SessionId {
    fn clone(&self) -> (r: Self)
        ensures
            r@ == self@,
    {
        SessionId(share(&self.0))
    }
}

impl Default for SessionId {
    fn default() -> (r: Self)
        ensures
            r@ == Seq::<char>::empty(),
    {
        SessionId(Arc::new(String::new()))
    }
}

impl PartialEq for SessionId {
    fn eq(&self, other: &Self) -> (r: bool) {
        self.fast_eq(other)
    }
}

impl Eq for SessionId {}

impl PartialEqSpecImpl for SessionId {
    open spec fn obeys_eq_spec() -> bool {
        true
    }

    open spec fn eq_spec(&self, other: &Self) -> bool {
        self@ == other@
    }
}

impl<'a> From<&'a str> for SessionId {
    fn from(s: &'a str) -> (r: Self)
        ensures
            r@ == s@,
    {
        SessionId::new(s)
    }
}

impl<'a> FromSpecImpl<&'a str> for SessionId {
    open spec fn obeys_from_spec() -> bool {
        false
    }

    open spec fn from_spec(v: &'a str) -> Self {
        arbitrary()
    }
}

impl From<String> for SessionId {
    fn from(s: String) -> (r: Self)
        ensures
            r@ == s@,
    {
        SessionId(Arc::new(s))
    }
}

impl FromSpecImpl<String> for SessionId {
    open spec fn obeys_from_spec() -> bool {
        false
    }

    open spec fn from_spec(v: String) -> Self {
        arbitrary()
    }
}

/// Identifier of one request, as the log records it.
#[derive(Debug, Hash)]
pub struct RequestId(String);

impl View for RequestId {
    type V = Seq<char>;

    closed spec fn view(&self) -> Seq<char> {
        self.0@
    }
}

impl RequestId {
    /// Create an identifier from its text.
    pub fn new(id: &str) -> (r: Self)
        ensures
            r@ == id@,
    {
        RequestId(String::from_str(id))
    }

    /// The identifier's text.
    pub fn as_str(&self) -> (r: &str)
        ensures
            r@ == self@,
    {
        self.0.as_str()
    }

    /// Consume the identifier and return its text.
    pub fn into_inner(self) -> (r: String)
        ensures
            r@ == self@,
    {
        self.0
    }
}

impl Clone for RequestId {
    fn clone(&self) -> (r: Self)
        ensures
            r@ == self@,
    {
        RequestId(self.0.clone())
    }
}

impl PartialEq for RequestId {
    fn eq(&self, other: &Self) -> (r: bool) {
        self.0 == other.0
    }
}

impl Eq for RequestId {}

impl PartialEqSpecImpl for RequestId {
    open spec fn obeys_eq_spec() -> bool {
        true
    }

    open spec fn eq_spec(&self, other: &Self) -> bool {
        self@ == other@
    }
}

impl<'a> From<&'a str> for RequestId {
    fn from(s: &'a str) -> (r: Self)
        ensures
            r@ == s@,
    {
        RequestId(String::from_str(s))
    }
}

impl<'a> FromSpecImpl<&'a str> for RequestId {
    open spec fn obeys_from_spec() -> bool {
        false
    }

    open spec fn from_spec(v: &'a str) -> Self {
        arbitrary()
    }
}

impl From<String> for RequestId {
    fn from(s: String) -> (r: Self)
        ensures
            r@ == s@,
    {
        RequestId(s)
    }
}

impl FromSpecImpl<String> for RequestId {
    open spec fn obeys_from_spec() -> bool {
        false
    }

    open spec fn from_spec(v: String) -> Self {
        arbitrary()
    }
}

/// Identifier of one message, as the log records it.
#[derive(Debug, Hash)]
pub struct MessageId(String);

impl View for MessageId {
    type V = Seq<char>;

    closed spec fn view(&self) -> Seq<char> {
        self.0@
    }
}

impl MessageId {
    /// Create an identifier from its text.
    pub fn new(id: &str) -> (r: Self)
        ensures
            r@ == id@,
    {
        MessageId(String::from_str(id))
    }

    /// The identifier's text.
    pub fn as_str(&self) -> (r: &str)
        ensures
            r@ == self@,
    {
        self.0.as_str()
    }

    /// Consume the identifier and return its text.
    pub fn into_inner(self) -> (r: String)
        ensures
            r@ == self@,
    {
        self.0
    }
}

impl Clone for MessageId {
    fn clone(&self) -> (r: Self)
        ensures
            r@ == self@,
    {
        MessageId(self.0.clone())
    }
}

impl PartialEq for MessageId {
    fn eq(&self, other: &Self) -> (r: bool) {
        self.0 == other.0
    }
}

impl Eq for MessageId {}

impl PartialEqSpecImpl for MessageId {
    open spec fn obeys_eq_spec() -> bool {
        true
    }

    open spec fn eq_spec(&self, other: &Self) -> bool {
        self@ == other@
    }
}

impl<'a> From<&'a str> for MessageId {
    fn from(s: &'a str) -> (r: Self)
        ensures
            r@ == s@,
    {
        MessageId(String::from_str(s))
    }
}

impl<'a> FromSpecImpl<&'a str> for MessageId {
    open spec fn obeys_from_spec() -> bool {
        false
    }

    open spec fn from_spec(v: &'a str) -> Self {
        arbitrary()
    }
}

impl From<String> for MessageId {
    fn from(s: String) -> (r: Self)
        ensures
            r@ == s@,
    {
        MessageId(s)
    }
}

impl FromSpecImpl<String> for MessageId {
    open spec fn obeys_from_spec() -> bool {
        false
    }

    open spec fn from_spec(v: String) -> Self {
        arbitrary()
    }
}

/// The text that identifies a record: the message identifier, a colon, the
/// request identifier.
pub open spec fn entry_hash(message_id: Seq<char>, request_id: Seq<char>) -> Seq<char> {
    message_id + seq![':'] + request_id
}

/// Identity of a record that carries both a message and a request identifier.
/// Two records with the same identity are deliveries of one event.
#[derive(Debug, Hash)]
pub struct UniqueHash(String);

impl View for UniqueHash {
    type V = Seq<char>;

    closed spec fn view(&self) -> Seq<char> {
        self.0@
    }
}

impl UniqueHash {
    /// The identity made of a message identifier and a request identifier.
    pub fn from_ids(message_id: &MessageId, request_id: &RequestId) -> (r: Self)
        ensures
            r@ == entry_hash(message_id@, request_id@),
    {
        let mut s = String::from_str(message_id.as_str());
        s.append(":");
        s.append(request_id.as_str());
        proof {
            reveal_strlit(":");
            assert(":"@ =~= seq![':']);
        }
        UniqueHash(s)
    }

    /// The identity of a record, present exactly when the record carries both
    /// a message identifier and a request identifier.
    pub fn from_usage_entry_data(data: &UsageEntryData) -> (r: Option<Self>)
        ensures
            r is Some == data.identity() is Some,
            r is Some ==> r->0@ == data.identity()->0,
    {
        match &data.message {
            Some(message) => match &message.id {
                Some(message_id) => match &data.request_id {
                    Some(request_id) => Some(Self::from_ids(message_id, request_id)),
                    None => None,
                },
                None => None,
            },
            None => None,
        }
    }

    /// The identity's text.
    pub fn as_str(&self) -> (r: &str)
        ensures
            r@ == self@,
    {
        self.0.as_str()
    }

    /// Consume the identity and return its text.
    pub fn into_inner(self) -> (r: String)
        ensures
            r@ == self@,
    {
        self.0
    }
}

impl Clone for UniqueHash {
    fn clone(&self) -> (r: Self)
        ensures
            r@ == self@,
    {
        UniqueHash(self.0.clone())
    }
}

impl PartialEq for UniqueHash {
    fn eq(&self, other: &Self) -> (r: bool) {
        self.0 == other.0
    }
}

impl Eq for UniqueHash {}

impl PartialEqSpecImpl for UniqueHash {
    open spec fn obeys_eq_spec() -> bool {
        true
    }

    open spec fn eq_spec(&self, other: &Self) -> bool {
        self@ == other@
    }
}

/// A model identifier. Its family is read from its text: see `is_opus` and
/// `is_sonnet`.
#[derive(Debug, Hash)]
pub struct ModelId(String);

impl View for ModelId {
    type V = Seq<char>;

    closed spec fn view(&self) -> Seq<char> {
        self.0@
    }
}

impl ModelId {
    /// The model that a text names.
    pub fn from_str_impl(s: &str) -> (r: Self)
        ensures
            r@ == s@,
    {
        ModelId(String::from_str(s))
    }

    /// An Opus model: its lower-case form contains "opus".
    pub open spec fn spec_is_opus(&self) -> bool {
        text_contains(lowercase(self@), "opus"@)
    }

    /// A Sonnet model: its lower-case form contains "sonnet".
    pub open spec fn spec_is_sonnet(&self) -> bool {
        text_contains(lowercase(self@), "sonnet"@)
    }

    /// Whether this is an Opus model.
    pub fn is_opus(&self) -> (r: bool)
        ensures
            r == self.spec_is_opus(),
    {
        let lower = to_lowercase(self.0.as_str());
        str_contains(lower.as_str(), "opus")
    }

    /// Whether this is a Sonnet model.
    pub fn is_sonnet(&self) -> (r: bool)
        ensures
            r == self.spec_is_sonnet(),
    {
        let lower = to_lowercase(self.0.as_str());
        str_contains(lower.as_str(), "sonnet")
    }

    /// The identifier's text.
    pub fn as_str(&self) -> (r: &str)
        ensures
            r@ == self@,
    {
        self.0.as_str()
    }
}

impl Clone for ModelId {
    fn clone(&self) -> (r: Self)
        ensures
            r@ == self@,
    {
        ModelId(self.0.clone())
    }
}

impl PartialEq for ModelId {
    fn eq(&self, other: &Self) -> (r: bool) {
        self.0 == other.0
    }
}

impl Eq for ModelId {}

impl PartialEqSpecImpl for ModelId {
    open spec fn obeys_eq_spec() -> bool {
        true
    }

    open spec fn eq_spec(&self, other: &Self) -> bool {
        self@ == other@
    }
}

impl<'a> From<&'a str> for ModelId {
    fn from(s: &'a str) -> (r: Self)
        ensures
            r@ == s@,
    {
        Self::from_str_impl(s)
    }
}

impl<'a> FromSpecImpl<&'a str> for ModelId {
    open spec fn obeys_from_spec() -> bool {
        false
    }

    open spec fn from_spec(v: &'a str) -> Self {
        arbitrary()
    }
}

impl From<String> for ModelId {
    fn from(s: String) -> (r: Self)
        ensures
            r@ == s@,
    {
        ModelId(s)
    }
}

impl FromSpecImpl<String> for ModelId {
    open spec fn obeys_from_spec() -> bool {
        false
    }

    open spec fn from_spec(v: String) -> Self {
        arbitrary()
    }
}

} // verus!
