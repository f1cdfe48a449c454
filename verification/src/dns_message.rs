//! DNS messages.
//!
//! The messages are `trust_dns_proto`'s. What one holds is named here, as far as the resolver
//! reads or writes it, and each operation is described over that name.

use crate::wire::{be, be16, be32};
use trust_dns_proto::error::ProtoError;
use trust_dns_proto::op::{Message, MessageType, Query, ResponseCode};
use trust_dns_proto::rr::rdata::A;
use trust_dns_proto::rr::{DNSClass, RData, Record, RecordType};
use vstd::prelude::*;

verus! {

#[verifier::external_type_specification]
#[verifier::external_body]
pub struct ExProtoError(trust_dns_proto::error::ProtoError);

#[verifier::external_type_specification]
#[verifier::external_body]
pub struct ExMessage(trust_dns_proto::op::Message);

#[verifier::external_type_specification]
#[verifier::external_body]
pub struct ExQuery(trust_dns_proto::op::Query);

/// A domain name as a value.
pub struct NameModel {
    pub labels: Seq<Seq<u8>>,
    /// Whether the name ends at the root.
    pub fqdn: bool,
}

/// A question as a value.
pub struct QueryModel {
    pub name: NameModel,
    pub qtype: u16,
    pub qclass: u16,
}

/// An answer as a value.
pub struct AnswerModel {
    pub name: NameModel,
    pub rtype: u16,
    pub class: u16,
    pub ttl: u32,
    /// What the answer says, as bytes: for an address, its own. The options of an OPT record stand
    /// in the message.
    pub data: Seq<u8>,
}

/// A message as a value.
pub struct MessageModel {
    pub id: u16,
    pub response: bool,
    pub op_code: u8,
    pub recursion_available: bool,
    pub recursion_desired: bool,
    pub response_code: u16,
    pub queries: Seq<QueryModel>,
    pub answers: Seq<AnswerModel>,
    /// The options of each OPT record in it, by their codes, in the order of the records. The
    /// options of one record have no order.
    pub options: Seq<Map<u16, Seq<u8>>>,
    /// Everything else that is written of it, as bytes. There are none in a new message.
    pub rest: Seq<u8>,
}

/// Whether `orders` gives an order to the options of each OPT record: each code once.
pub open spec fn orders_options(orders: Seq<Seq<u16>>, options: Seq<Map<u16, Seq<u8>>>) -> bool {
    &&& orders.len() == options.len()
    &&& forall|i: int|
        #![trigger orders[i]]
        0 <= i < orders.len() ==> orders[i].no_duplicates() && orders[i].to_set()
            == options[i].dom()
}

/// Whether no OPT record has more than one option.
pub open spec fn single_options(options: Seq<Map<u16, Seq<u8>>>) -> bool {
    forall|i: int, a: u16, b: u16|
        0 <= i < options.len() && #[trigger] options[i].dom().contains(a)
            && #[trigger] options[i].dom().contains(b) ==> a == b
}

/// Whether a message can come out as this packet, or as none: its options can be written in some
/// order.
pub open spec fn writes_as(message: MessageModel, packet: Option<Seq<u8>>) -> bool {
    exists|orders: Seq<Seq<u16>>|
        orders_options(orders, message.options) && #[trigger] written(message, orders) == packet
}

/// The class of the Internet.
pub const CLASS_IN: u16 = 1;

/// The type of questions for IPv4 addresses.
pub const TYPE_A: u16 = 1;

/// The type of questions for IPv6 addresses.
pub const TYPE_AAAA: u16 = 28;

/// The type of questions for service bindings.
pub const TYPE_HTTPS: u16 = 65;

/// The operation code of a question.
pub const OP_QUERY: u8 = 0;

/// The response code that says that there was no error.
pub const NO_ERROR: u8 = 0;

/// What a message holds.
pub uninterp spec fn message_model(message: Message) -> MessageModel;

/// What a question holds.
pub uninterp spec fn query_model(query: Query) -> QueryModel;

/// The message in a packet, where there is one.
pub uninterp spec fn parsed(packet: Seq<u8>) -> Option<MessageModel>;

/// The packet of a message, where it can be written, with the options of each OPT record in a
/// given order.
pub uninterp spec fn written(message: MessageModel, orders: Seq<Seq<u16>>) -> Option<Seq<u8>>;

/// How a name reads, special characters escaped.
pub uninterp spec fn name_text(name: NameModel) -> Seq<char>;

/// `trust_dns_proto::op::Message::from_vec`: reads a message. Its number is that of the first two
/// bytes.
#[verifier::external_body]
pub(crate) fn message_from_vec(packet: &[u8]) -> (message: Result<Message, ProtoError>)
    ensures
        message is Ok <==> parsed(packet@) is Some,
        message matches Ok(m) ==> {
            &&& parsed(packet@) == Some(message_model(m))
            &&& 2 <= packet@.len()
            &&& message_model(m).id == be(packet@.take(2))
        },
{
    Message::from_vec(packet)
}

/// `trust_dns_proto::op::Message::to_vec`: writes a message. The packet starts with the number of
/// the message. The options of an OPT record are kept in a hash map, and are written in the order
/// in which that is walked: which one is left open.
#[verifier::external_body]
pub(crate) fn message_to_vec(message: &Message) -> (packet: Result<Vec<u8>, ProtoError>)
    ensures
        match packet {
            Ok(p) => exists|orders: Seq<Seq<u16>>|
                orders_options(orders, message_model(*message).options) && #[trigger] written(
                    message_model(*message),
                    orders,
                ) == Some(p@),
            Err(_) => exists|orders: Seq<Seq<u16>>|
                orders_options(orders, message_model(*message).options) && #[trigger] written(
                    message_model(*message),
                    orders,
                ) is None,
        },
        packet matches Ok(p) ==> {
            &&& 12 <= p@.len()
            &&& p@.take(2) == be16(message_model(*message).id)
        },
{
    message.to_vec()
}

/// `trust_dns_proto::op::Message::new`: an empty question with everything zero.
#[verifier::external_body]
pub(crate) fn message_new() -> (message: Message)
    ensures
        message_model(message) == (MessageModel {
            id: 0,
            response: false,
            op_code: OP_QUERY,
            recursion_available: false,
            recursion_desired: false,
            response_code: 0,
            queries: Seq::empty(),
            answers: Seq::empty(),
            options: Seq::empty(),
            rest: Seq::empty(),
        }),
{
    Message::new()
}

/// `trust_dns_proto::op::Message::id`: the number of the message.
#[verifier::external_body]
pub(crate) fn message_id(message: &Message) -> (id: u16)
    ensures
        id == message_model(*message).id,
{
    message.id()
}

/// `trust_dns_proto::op::Message::op_code`: the operation code, as its number.
#[verifier::external_body]
pub(crate) fn message_op_code(message: &Message) -> (op_code: u8)
    ensures
        op_code == message_model(*message).op_code,
{
    u8::from(message.op_code())
}

/// `trust_dns_proto::op::Message::recursion_available`: the flag of that name.
#[verifier::external_body]
pub(crate) fn message_recursion_available(message: &Message) -> (available: bool)
    ensures
        available == message_model(*message).recursion_available,
{
    message.recursion_available()
}

/// `trust_dns_proto::op::Message::recursion_desired`: the flag of that name.
#[verifier::external_body]
pub(crate) fn message_recursion_desired(message: &Message) -> (desired: bool)
    ensures
        desired == message_model(*message).recursion_desired,
{
    message.recursion_desired()
}

/// `trust_dns_proto::op::Message::queries`: the questions, in order.
#[verifier::external_body]
pub(crate) fn message_queries(message: &Message) -> (queries: &[Query])
    ensures
        queries@.len() == message_model(*message).queries.len(),
        forall|i: int|
            0 <= i < queries@.len() ==> query_model(#[trigger] queries@[i]) == message_model(
                *message,
            ).queries[i],
{
    message.queries()
}

/// `trust_dns_proto::op::Message::set_id`: gives the message another number.
#[verifier::external_body]
pub(crate) fn message_set_id(message: &mut Message, id: u16)
    ensures
        message_model(*final(message)) == (MessageModel { id, ..message_model(*old(message)) }),
{
    message.set_id(id);
}

/// `trust_dns_proto::op::Message::set_message_type`: makes the message a response.
#[verifier::external_body]
pub(crate) fn message_set_response(message: &mut Message)
    ensures
        message_model(*final(message)) == (MessageModel {
            response: true,
            ..message_model(*old(message))
        }),
{
    message.set_message_type(MessageType::Response);
}

/// `trust_dns_proto::op::Message::set_op_code`: gives the message the operation code of another.
#[verifier::external_body]
pub(crate) fn message_set_op_code(message: &mut Message, of: &Message)
    ensures
        message_model(*final(message)) == (MessageModel {
            op_code: message_model(*of).op_code,
            ..message_model(*old(message))
        }),
{
    message.set_op_code(of.op_code());
}

/// `trust_dns_proto::op::Message::set_recursion_available`: sets the flag of that name.
#[verifier::external_body]
pub(crate) fn message_set_recursion_available(message: &mut Message, available: bool)
    ensures
        message_model(*final(message)) == (MessageModel {
            recursion_available: available,
            ..message_model(*old(message))
        }),
{
    message.set_recursion_available(available);
}

/// `trust_dns_proto::op::Message::set_recursion_desired`: sets the flag of that name.
#[verifier::external_body]
pub(crate) fn message_set_recursion_desired(message: &mut Message, desired: bool)
    ensures
        message_model(*final(message)) == (MessageModel {
            recursion_desired: desired,
            ..message_model(*old(message))
        }),
{
    message.set_recursion_desired(desired);
}

/// `trust_dns_proto::op::Message::set_response_code`, with a code of the header's four bits.
#[verifier::external_body]
pub(crate) fn message_set_response_code(message: &mut Message, code: u8)
    requires
        code < 16,
    ensures
        message_model(*final(message)) == (MessageModel {
            response_code: code as u16,
            ..message_model(*old(message))
        }),
{
    message.set_response_code(ResponseCode::from_low(code));
}

/// `trust_dns_proto::op::Message::add_query`: adds a question behind the others.
#[verifier::external_body]
pub(crate) fn message_add_query(message: &mut Message, query: &Query)
    ensures
        message_model(*final(message)) == (MessageModel {
            queries: message_model(*old(message)).queries.push(query_model(*query)),
            ..message_model(*old(message))
        }),
{
    message.add_query(query.clone());
}

/// The classes that a record can be given.
pub open spec fn known_class(class: u16) -> bool {
    class == 1 || class == 3 || class == 4 || class == 254 || class == 255
}

/// `trust_dns_proto::op::Message::add_answer`, with a record for the name of a question that gives
/// an IPv4 address: adds it behind the others. The record cannot be made with another type than
/// that of IPv4 addresses, nor with a class that is not known.
#[verifier::external_body]
pub(crate) fn message_add_answer(
    message: &mut Message,
    query: &Query,
    rtype: u16,
    class: u16,
    ttl: u32,
    ip: u32,
)
    requires
        rtype == TYPE_A,
        known_class(class),
    ensures
        message_model(*final(message)) == (MessageModel {
            answers: message_model(*old(message)).answers.push(
                AnswerModel {
                    name: query_model(*query).name,
                    rtype,
                    class,
                    ttl,
                    data: be32(ip),
                },
            ),
            ..message_model(*old(message))
        }),
{
    let mut answer = Record::new();
    answer
        .set_name(query.name().clone())
        .set_ttl(ttl)
        .set_rr_type(RecordType::from(rtype))
        .set_dns_class(DNSClass::from_u16(class).unwrap())
        .set_data(Some(RData::A(A(ip.into()))));
    message.add_answer(answer);
}

/// `trust_dns_proto::op::Query::query_class`: the class that is asked for, as its number.
#[verifier::external_body]
pub(crate) fn query_class(query: &Query) -> (class: u16)
    ensures
        class == query_model(*query).qclass,
{
    u16::from(query.query_class())
}

/// `trust_dns_proto::op::Query::query_type`: the type that is asked for, as its number.
#[verifier::external_body]
pub(crate) fn query_type(query: &Query) -> (kind: u16)
    ensures
        kind == query_model(*query).qtype,
{
    u16::from(query.query_type())
}

/// `trust_dns_proto::rr::Name::is_fqdn`, of the name that is asked for: whether it ends at the
/// root.
#[verifier::external_body]
pub(crate) fn query_name_is_fqdn(query: &Query) -> (fqdn: bool)
    ensures
        fqdn == query_model(*query).name.fqdn,
{
    query.name().is_fqdn()
}

/// `trust_dns_proto::rr::Name::to_ascii`, of the name that is asked for: how it reads. A name
/// that ends at the root reads with a dot at its end.
#[verifier::external_body]
pub(crate) fn query_name_to_ascii(query: &Query) -> (text: String)
    ensures
        text@ == name_text(query_model(*query).name),
        query_model(*query).name.fqdn ==> text@.len() > 0 && text@.last() == '.',
{
    query.name().to_ascii()
}

/// A message whose OPT records have at most one option each comes out in one way only.
pub proof fn law_single_options_have_one_order(
    message: MessageModel,
    a: Option<Seq<u8>>,
    b: Option<Seq<u8>>,
)
    requires
        single_options(message.options),
        writes_as(message, a),
        writes_as(message, b),
    ensures
        a == b,
{
    let x = choose|orders: Seq<Seq<u16>>|
        orders_options(orders, message.options) && #[trigger] written(message, orders) == a;
    let y = choose|orders: Seq<Seq<u16>>|
        orders_options(orders, message.options) && #[trigger] written(message, orders) == b;
    assert forall|i: int| 0 <= i < x.len() implies #[trigger] x[i] == y[i] by {
        let codes = message.options[i].dom();
        assert forall|k: int| 0 <= k < x[i].len() implies codes.contains(#[trigger] x[i][k]) by {
            assert(x[i].to_set().contains(x[i][k]));
        }
        assert forall|k: int| 0 <= k < y[i].len() implies codes.contains(#[trigger] y[i][k]) by {
            assert(y[i].to_set().contains(y[i][k]));
        }
        if x[i].len() > 0 {
            assert(y[i].to_set().contains(x[i][0]));
            assert(x[i].len() > 1 ==> x[i][0] == x[i][1]);
        }
        if y[i].len() > 0 {
            assert(x[i].to_set().contains(y[i][0]));
            assert(y[i].len() > 1 ==> y[i][0] == y[i][1]);
        }
        assert(x[i] =~= y[i]);
    }
    assert(x =~= y);
}

/// A message without OPT records comes out in one way only.
pub proof fn law_without_options_there_is_one_order(
    message: MessageModel,
    packet: Option<Seq<u8>>,
)
    requires
        message.options.len() == 0,
    ensures
        writes_as(message, packet) <==> written(message, Seq::empty()) == packet,
{
    let none = Seq::<Seq<u16>>::empty();
    assert(orders_options(none, message.options));
    if writes_as(message, packet) {
        let orders = choose|orders: Seq<Seq<u16>>|
            orders_options(orders, message.options) && #[trigger] written(message, orders)
                == packet;
        assert(orders =~= none);
    }
}

} // verus!
