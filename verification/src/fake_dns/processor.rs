//! The answer to a question that is not passed on.

use crate::fake_dns::message::{
    add_query, is_response, message_new, op_code, queries, server_message, set_header,
    set_response_code, HeaderModel, ServerMessage, NOT_IMPLEMENTED, OP_QUERY,
};
use hickory_resolver::proto::op::Message;
use vstd::prelude::*;

verus! {

/// Whether a message is a question of the usual kind.
pub open spec fn is_question(request: ServerMessage) -> bool {
    request.header.op_code == OP_QUERY && !request.header.response
}

/// The answer: the header and the questions of a question of the usual kind, and for anything
/// else only the header, with the code that says that it is not supported.
pub open spec fn answer_to(request: ServerMessage) -> ServerMessage {
    if is_question(request) {
        ServerMessage { header: request.header, queries: request.queries, rest: Seq::empty() }
    } else {
        ServerMessage {
            header: HeaderModel { response_code: NOT_IMPLEMENTED as u16, ..request.header },
            queries: Seq::empty(),
            rest: Seq::empty(),
        }
    }
}

/// Answers one message.
pub struct MessageProcessor {
    req_message: Message,
}

impl MessageProcessor {
    pub closed spec fn request(&self) -> ServerMessage {
        server_message(self.req_message)
    }

    pub fn new(req_message: Message) -> (processor: Self)
        ensures
            processor.request() == server_message(req_message),
    {
        MessageProcessor { req_message }
    }

    /// The answer.
    pub fn process(&self) -> (answer: Message)
        ensures
            server_message(answer) == answer_to(self.request()),
    {
        let request = &self.req_message;
        let mut answer = message_new();
        set_header(&mut answer, request);
        if op_code(request) != OP_QUERY || is_response(request) {
            set_response_code(&mut answer, NOT_IMPLEMENTED);
            return answer;
        }
        let asked = queries(request);
        let mut i: usize = 0;
        proof {
            assert(asked@.take(0) =~= Seq::empty());
        }
        while i < asked.len()
            invariant
                i <= asked@.len(),
                asked@ == self.request().queries,
                server_message(answer) == (ServerMessage {
                    header: self.request().header,
                    queries: asked@.take(i as int),
                    rest: Seq::empty(),
                }),
            decreases asked@.len() - i,
        {
            add_query(&mut answer, &asked[i]);
            proof {
                assert(asked@.take(i + 1) =~= asked@.take(i as int).push(asked@[i as int]));
            }
            i = i + 1;
        }
        proof {
            assert(asked@.take(i as int) =~= asked@);
        }
        answer
    }
}

/// An answer has the number and the flags of its request. A question of the usual kind is answered
/// with all its questions, in order, and the code that it came with; anything else without any, and
/// with code 4.
pub proof fn law_answers_echo_their_request(request: ServerMessage)
    ensures
        ({
            let a = answer_to(request);
            let usual = request.header.op_code == 0 && !request.header.response;
            &&& a.header.id == request.header.id
            &&& a.header.response == request.header.response
            &&& a.header.op_code == request.header.op_code
            &&& a.header.authoritative == request.header.authoritative
            &&& a.header.truncated == request.header.truncated
            &&& a.header.recursion_desired == request.header.recursion_desired
            &&& a.header.recursion_available == request.header.recursion_available
            &&& a.header.authentic_data == request.header.authentic_data
            &&& a.header.checking_disabled == request.header.checking_disabled
            &&& usual ==> a.header.response_code == request.header.response_code && a.queries
                == request.queries
            &&& !usual ==> a.header.response_code == 4 && a.queries.len() == 0
            &&& a.rest.len() == 0
        }),
{
}

} // verus!
