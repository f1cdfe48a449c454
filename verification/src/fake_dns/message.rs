//! DNS messages, as the server handles them.
//!
//! The messages are those of `hickory_resolver`. What one holds is named here, as far as the
//! server reads or writes it.

use hickory_resolver::proto::op::{Message, MessageType, Query, ResponseCode};
use hickory_resolver::proto::ProtoError;
use vstd::prelude::*;

verus! {

#[verifier::external_type_specification]
#[verifier::external_body]
pub struct ExHickoryError(hickory_resolver::proto::ProtoError);

#[verifier::external_type_specification]
#[verifier::external_body]
pub struct ExHickoryMessage(hickory_resolver::proto::op::Message);

#[verifier::external_type_specification]
#[verifier::external_body]
pub struct ExHickoryQuery(hickory_resolver::proto::op::Query);

/// The header of a message, but for the numbers of records, as a value.
pub struct HeaderModel {
    pub id: u16,
    pub response: bool,
    pub op_code: u8,
    pub authoritative: bool,
    pub truncated: bool,
    pub recursion_desired: bool,
    pub recursion_available: bool,
    pub authentic_data: bool,
    pub checking_disabled: bool,
    pub response_code: u16,
}

/// A message as a value.
pub struct ServerMessage {
    pub header: HeaderModel,
    pub queries: Seq<Query>,
    /// Everything else that is written of it, as bytes. There are none in a new message.
    pub rest: Seq<u8>,
}

/// The operation code of a question.
pub const OP_QUERY: u8 = 0;

/// The response code that says that the operation is not supported.
pub const NOT_IMPLEMENTED: u8 = 4;

/// What a message holds.
pub uninterp spec fn server_message(message: Message) -> ServerMessage;

/// The message in a packet, where there is one.
pub uninterp spec fn decoded(packet: Seq<u8>) -> Option<ServerMessage>;

/// The packet of a message, where it can be written.
pub uninterp spec fn encoded(message: ServerMessage) -> Option<Seq<u8>>;

/// `hickory_proto::op::Message::from_vec`: reads a message.
#[verifier::external_body]
pub(crate) fn from_vec(packet: &[u8]) -> (message: Result<Message, ProtoError>)
    ensures
        message is Ok <==> decoded(packet@) is Some,
        message matches Ok(m) ==> decoded(packet@) == Some(server_message(m)),
{
    Message::from_vec(packet)
}

/// `hickory_proto::op::Message::to_vec`: writes a message.
#[verifier::external_body]
pub(crate) fn to_vec(message: &Message) -> (packet: Result<Vec<u8>, ProtoError>)
    ensures
        packet is Ok <==> encoded(server_message(*message)) is Some,
        packet matches Ok(p) ==> encoded(server_message(*message)) == Some(p@),
{
    message.to_vec()
}

/// `hickory_proto::op::Message::new`: an empty question with everything zero.
#[verifier::external_body]
pub(crate) fn message_new() -> (message: Message)
    ensures
        server_message(message) == (ServerMessage {
            header: HeaderModel {
                id: 0,
                response: false,
                op_code: OP_QUERY,
                authoritative: false,
                truncated: false,
                recursion_desired: false,
                recursion_available: false,
                authentic_data: false,
                checking_disabled: false,
                response_code: 0,
            },
            queries: Seq::empty(),
            rest: Seq::empty(),
        }),
{
    Message::new()
}

/// `hickory_proto::op::Message::set_header`: gives a message the header of another. The numbers
/// of records in it are of no account when the message is written.
#[verifier::external_body]
pub(crate) fn set_header(message: &mut Message, of: &Message)
    ensures
        server_message(*final(message)) == (ServerMessage {
            header: server_message(*of).header,
            ..server_message(*old(message))
        }),
{
    message.set_header(*of.header());
}

/// `hickory_proto::op::Message::op_code`: the operation code, as its number.
#[verifier::external_body]
pub(crate) fn op_code(message: &Message) -> (op_code: u8)
    ensures
        op_code == server_message(*message).header.op_code,
{
    u8::from(message.op_code())
}

/// `hickory_proto::op::Message::message_type`: whether the message is a response.
#[verifier::external_body]
pub(crate) fn is_response(message: &Message) -> (response: bool)
    ensures
        response == server_message(*message).header.response,
{
    match message.message_type() {
        MessageType::Query => false,
        MessageType::Response => true,
    }
}

/// `hickory_proto::op::Message::set_response_code`, with a code of the header's four bits.
#[verifier::external_body]
pub(crate) fn set_response_code(message: &mut Message, code: u8)
    requires
        code < 16,
    ensures
        server_message(*final(message)) == (ServerMessage {
            header: HeaderModel {
                response_code: code as u16,
                ..server_message(*old(message)).header
            },
            ..server_message(*old(message))
        }),
{
    message.set_response_code(ResponseCode::from_low(code));
}

/// `hickory_proto::op::Message::queries`: the questions, in order.
#[verifier::external_body]
pub(crate) fn queries(message: &Message) -> (found: &[Query])
    ensures
        found@ == server_message(*message).queries,
{
    message.queries()
}

/// `hickory_proto::op::Message::add_query`: adds a copy of a question behind the others.
#[verifier::external_body]
pub(crate) fn add_query(message: &mut Message, query: &Query)
    ensures
        server_message(*final(message)) == (ServerMessage {
            queries: server_message(*old(message)).queries.push(*query),
            ..server_message(*old(message))
        }),
{
    message.add_query(query.clone());
}

} // verus!
