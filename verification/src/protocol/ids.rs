//! Identifiers: each a text of its own type.

use vstd::prelude::*;

verus! {

/// Identifier of an agent group.
#[derive(Debug, PartialEq, Eq, PartialOrd, Ord, Hash)]
pub struct AgentGroupId(String);

impl AgentGroupId {
    /// The identifier's text.
    pub closed spec fn view(&self) -> Seq<char> {
        self.0@
    }

    /// Makes an identifier of a text.
    pub fn new(value: &str) -> (r: AgentGroupId)
        ensures
            r@ == value@,
    {
        AgentGroupId(value.to_owned())
    }

    /// The identifier's text.
    pub fn as_str(&self) -> (r: &str)
        ensures
            r@ == self@,
    {
        self.0.as_str()
    }
}

impl Clone for AgentGroupId {
    fn clone(&self) -> (r: AgentGroupId)
        ensures
            r == *self,
    {
        AgentGroupId(self.0.clone())
    }
}

/// Identifier of a messaging group: one chat on one channel.
#[derive(Debug, PartialEq, Eq, PartialOrd, Ord, Hash)]
pub struct MessagingGroupId(String);

impl MessagingGroupId {
    /// The identifier's text.
    pub closed spec fn view(&self) -> Seq<char> {
        self.0@
    }

    /// Makes an identifier of a text.
    pub fn new(value: &str) -> (r: MessagingGroupId)
        ensures
            r@ == value@,
    {
        MessagingGroupId(value.to_owned())
    }

    /// The identifier's text.
    pub fn as_str(&self) -> (r: &str)
        ensures
            r@ == self@,
    {
        self.0.as_str()
    }
}

impl Clone for MessagingGroupId {
    fn clone(&self) -> (r: MessagingGroupId)
        ensures
            r == *self,
    {
        MessagingGroupId(self.0.clone())
    }
}

/// Identifier of a session.
#[derive(Debug, PartialEq, Eq, PartialOrd, Ord, Hash)]
pub struct SessionId(String);

impl SessionId {
    /// The identifier's text.
    pub closed spec fn view(&self) -> Seq<char> {
        self.0@
    }

    /// Makes an identifier of a text.
    pub fn new(value: &str) -> (r: SessionId)
        ensures
            r@ == value@,
    {
        SessionId(value.to_owned())
    }

    /// The identifier's text.
    pub fn as_str(&self) -> (r: &str)
        ensures
            r@ == self@,
    {
        self.0.as_str()
    }
}

impl Clone for SessionId {
    fn clone(&self) -> (r: SessionId)
        ensures
            r == *self,
    {
        SessionId(self.0.clone())
    }
}

/// Identifier of a user.
#[derive(Debug, PartialEq, Eq, PartialOrd, Ord, Hash)]
pub struct UserId(String);

impl UserId {
    /// The identifier's text.
    pub closed spec fn view(&self) -> Seq<char> {
        self.0@
    }

    /// Makes an identifier of a text.
    pub fn new(value: &str) -> (r: UserId)
        ensures
            r@ == value@,
    {
        UserId(value.to_owned())
    }

    /// The identifier's text.
    pub fn as_str(&self) -> (r: &str)
        ensures
            r@ == self@,
    {
        self.0.as_str()
    }
}

impl Clone for UserId {
    fn clone(&self) -> (r: UserId)
        ensures
            r == *self,
    {
        UserId(self.0.clone())
    }
}

/// Identifier of an inbound message.
#[derive(Debug, PartialEq, Eq, PartialOrd, Ord, Hash)]
pub struct MessageInId(String);

impl MessageInId {
    /// The identifier's text.
    pub closed spec fn view(&self) -> Seq<char> {
        self.0@
    }

    /// Makes an identifier of a text.
    pub fn new(value: &str) -> (r: MessageInId)
        ensures
            r@ == value@,
    {
        MessageInId(value.to_owned())
    }

    /// The identifier's text.
    pub fn as_str(&self) -> (r: &str)
        ensures
            r@ == self@,
    {
        self.0.as_str()
    }
}

impl Clone for MessageInId {
    fn clone(&self) -> (r: MessageInId)
        ensures
            r == *self,
    {
        MessageInId(self.0.clone())
    }
}

/// Identifier of an outbound message.
#[derive(Debug, PartialEq, Eq, PartialOrd, Ord, Hash)]
pub struct MessageOutId(String);

impl MessageOutId {
    /// The identifier's text.
    pub closed spec fn view(&self) -> Seq<char> {
        self.0@
    }

    /// Makes an identifier of a text.
    pub fn new(value: &str) -> (r: MessageOutId)
        ensures
            r@ == value@,
    {
        MessageOutId(value.to_owned())
    }

    /// The identifier's text.
    pub fn as_str(&self) -> (r: &str)
        ensures
            r@ == self@,
    {
        self.0.as_str()
    }
}

impl Clone for MessageOutId {
    fn clone(&self) -> (r: MessageOutId)
        ensures
            r == *self,
    {
        MessageOutId(self.0.clone())
    }
}

/// Name of an inference endpoint.
#[derive(Debug, PartialEq, Eq, PartialOrd, Ord, Hash)]
pub struct EndpointName(String);

impl EndpointName {
    /// The identifier's text.
    pub closed spec fn view(&self) -> Seq<char> {
        self.0@
    }

    /// Makes an identifier of a text.
    pub fn new(value: &str) -> (r: EndpointName)
        ensures
            r@ == value@,
    {
        EndpointName(value.to_owned())
    }

    /// The identifier's text.
    pub fn as_str(&self) -> (r: &str)
        ensures
            r@ == self@,
    {
        self.0.as_str()
    }
}

impl Clone for EndpointName {
    fn clone(&self) -> (r: EndpointName)
        ensures
            r == *self,
    {
        EndpointName(self.0.clone())
    }
}

/// Identifier of a connector.
#[derive(Debug, PartialEq, Eq, PartialOrd, Ord, Hash)]
pub struct ConnectorId(String);

impl ConnectorId {
    /// The identifier's text.
    pub closed spec fn view(&self) -> Seq<char> {
        self.0@
    }

    /// Makes an identifier of a text.
    pub fn new(value: &str) -> (r: ConnectorId)
        ensures
            r@ == value@,
    {
        ConnectorId(value.to_owned())
    }

    /// The identifier's text.
    pub fn as_str(&self) -> (r: &str)
        ensures
            r@ == self@,
    {
        self.0.as_str()
    }
}

impl Clone for ConnectorId {
    fn clone(&self) -> (r: ConnectorId)
        ensures
            r == *self,
    {
        ConnectorId(self.0.clone())
    }
}

} // verus!
