//! The bus message model.
//!
//! A message arrives on a topic, carries a typed payload, and names the
//! topics an answer should go out on.  A reply takes the first of those
//! topics; building one fails only when the inbound message carried none.

use vstd::prelude::*;

use crate::errors::ReplyError;

verus! {

/// The payload type of a bus message.
#[derive(Clone, Copy, PartialEq, Eq, Structural, Debug)]
pub enum MessageType {
    Text,
    Audio,
    Photo,
    ModuleInfo,
    Unknown,
}

/// One message received from the bus, as the orchestrator reads it:
/// who sent it, what kind of payload it carries, the text payload, the
/// capability advertisements (used only on the discovery-response topic),
/// and the topics a reply should be published on, first one first.
pub struct InboundMessage {
    pub sender: String,
    pub message_type: MessageType,
    pub text: String,
    pub params: Vec<(String, String)>,
    pub response_topics: Vec<String>,
}

/// One message to publish back onto the bus, correlated to the inbound
/// message it answers: the remaining reply topics and the parameters are
/// carried over, the payload and its type are the answer's own.
pub struct OutboundMessage {
    pub message_type: MessageType,
    pub text: String,
    pub sender: String,
    pub params: Vec<(String, String)>,
    pub response_topics: Vec<String>,
}

/// Copies a list of string pairs, keeping the character sequences.
pub(crate) fn copy_string_pairs(v: &Vec<(String, String)>) -> (r: Vec<(String, String)>)
    ensures
        r.deep_view() == v.deep_view(),
{
    let mut r: Vec<(String, String)> = Vec::new();
    let mut i: usize = 0;
    while i < v.len()
        invariant
            i <= v@.len(),
            r@.len() == i,
            forall|j: int| 0 <= j < i ==> r@[j].0@ == v@[j].0@ && r@[j].1@ == v@[j].1@,
        decreases v@.len() - i,
    {
        r.push((v[i].0.clone(), v[i].1.clone()));
        i = i + 1;
    }
    proof {
        assert(r.deep_view() =~= v.deep_view());
    }
    r
}

impl InboundMessage {
    /// Builds the reply to this message: the first reply topic paired with
    /// an outbound message that carries the given payload, keeps the
    /// sender and the parameters, and hands the remaining reply topics on.
    /// Fails exactly when the message carries no reply topic.
    pub fn reply(&self, text: String, message_type: MessageType) -> (r: Result<
        (String, OutboundMessage),
        ReplyError,
    >)
        ensures
            r is Ok <==> self.response_topics@.len() > 0,
            r is Ok ==> {
                let (topic, out) = r->Ok_0;
                &&& topic@ == self.response_topics.deep_view()[0]
                &&& out.message_type == message_type
                &&& out.text == text
                &&& out.sender@ == self.sender@
                &&& out.params.deep_view() == self.params.deep_view()
                &&& out.response_topics.deep_view() == self.response_topics.deep_view().skip(1)
            },
    {
        if self.response_topics.len() == 0 {
            return Err(ReplyError);
        }
        let topic = self.response_topics[0].clone();
        let mut rest: Vec<String> = Vec::new();
        let mut i: usize = 1;
        while i < self.response_topics.len()
            invariant
                1 <= i <= self.response_topics@.len(),
                rest@.len() == i - 1,
                forall|j: int|
                    0 <= j < i - 1 ==> rest@[j]@ == self.response_topics@[j + 1]@,
            decreases self.response_topics@.len() - i,
        {
            rest.push(self.response_topics[i].clone());
            i = i + 1;
        }
        let out = OutboundMessage {
            message_type,
            text,
            sender: self.sender.clone(),
            params: copy_string_pairs(&self.params),
            response_topics: rest,
        };
        proof {
            assert(out.response_topics.deep_view() =~= self.response_topics.deep_view().skip(1));
        }
        Ok((topic, out))
    }
}

} // verus!
