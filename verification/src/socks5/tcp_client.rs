//! Having a proxy make a TCP connection.

use crate::socks5::{
    handshake_bytes, law_reply_codes, request_bytes, response_of, tail_len, HandShakeRequest,
    HandShakeResponse, Reply, ResponseHead, Socks5Addr, Socks5TcpRequest, Socks5TcpResponse, TargetModel,
    SOCKS5_ADDR_TYPE_IPV4, SOCKS5_ADDR_TYPE_IPV6, SOCKS5_AUTH_METHOD_NONE, SOCKS5_CMD_TCP_CONNECT,
    SOCKS5_VERSION,
};
use vstd::prelude::*;

verus! {

/// How far the talk with the proxy has come: what is read next.
#[derive(Debug, Clone, Copy, PartialEq, Eq, Structural)]
pub enum ConnectStage {
    /// The response to the handshake.
    HandShake,
    /// The first bytes of the response to the request.
    Head,
    /// The rest of that response.
    Tail(ResponseHead),
    /// Nothing: the proxy has answered.
    Over,
}

/// How many bytes are read at a stage.
pub open spec fn stage_len(stage: ConnectStage) -> nat {
    match stage {
        ConnectStage::HandShake => 2,
        ConnectStage::Head => 4,
        ConnectStage::Tail(head) => tail_len(head.v6),
        ConnectStage::Over => 0,
    }
}

/// Whether what was read at a stage can be taken: a proxy that answers with an address has to
/// give an IP address.
pub open spec fn understood(stage: ConnectStage, data: Seq<u8>) -> bool {
    &&& data.len() == stage_len(stage)
    &&& stage is Head && data[0] == SOCKS5_VERSION ==> data[3] == SOCKS5_ADDR_TYPE_IPV4 || data[3]
        == SOCKS5_ADDR_TYPE_IPV6
}

/// Why there is no connection.
#[derive(Debug, Clone, Copy, PartialEq, Eq, Structural)]
pub enum ConnectError {
    /// The proxy speaks another version.
    UnknownVersion,
    /// The proxy wants another method of authentication.
    ChooseMethod,
    /// The proxy could not make the connection.
    Refused(Reply),
}

/// What to do after something was read.
pub enum ConnectStep {
    /// Write this, then read on.
    Write(Vec<u8>),
    /// Read on.
    Read,
    /// The connection is there.
    Connected,
    /// There is none.
    Failed(ConnectError),
}

/// What to do after something was read, as a value.
pub enum StepModel {
    Write(Seq<u8>),
    Read,
    Connected,
    Failed(ConnectError),
}

impl View for ConnectStep {
    type V = StepModel;

    open spec fn view(&self) -> StepModel {
        match *self {
            ConnectStep::Write(bytes) => StepModel::Write(bytes@),
            ConnectStep::Read => StepModel::Read,
            ConnectStep::Connected => StepModel::Connected,
            ConnectStep::Failed(e) => StepModel::Failed(e),
        }
    }
}

/// The next stage, and what to do, after something was read at a stage.
pub open spec fn next_stage(stage: ConnectStage, target: TargetModel, data: Seq<u8>) -> (
    ConnectStage,
    StepModel,
) {
    match stage {
        ConnectStage::HandShake => if data[0] != SOCKS5_VERSION {
            (ConnectStage::Over, StepModel::Failed(ConnectError::UnknownVersion))
        } else if data[1] != SOCKS5_AUTH_METHOD_NONE {
            (ConnectStage::Over, StepModel::Failed(ConnectError::ChooseMethod))
        } else {
            (
                ConnectStage::Head,
                StepModel::Write(request_bytes(SOCKS5_CMD_TCP_CONNECT, target)),
            )
        },
        ConnectStage::Head => if data[0] != SOCKS5_VERSION {
            (ConnectStage::Over, StepModel::Failed(ConnectError::UnknownVersion))
        } else {
            (
                ConnectStage::Tail(
                    ResponseHead {
                        reply: Reply::of(data[1]),
                        v6: data[3] == SOCKS5_ADDR_TYPE_IPV6,
                    },
                ),
                StepModel::Read,
            )
        },
        ConnectStage::Tail(head) => (
            ConnectStage::Over,
            if response_of(head, data).reply is Succeeded {
                StepModel::Connected
            } else {
                StepModel::Failed(ConnectError::Refused(head.reply))
            },
        ),
        ConnectStage::Over => (stage, StepModel::Read),
    }
}

/// The talk with a proxy that makes it connect.
pub struct Sock5TcpStream {
    stage: ConnectStage,
    request: Socks5TcpRequest,
}

impl Sock5TcpStream {
    pub closed spec fn stage(&self) -> ConnectStage {
        self.stage
    }

    pub closed spec fn target(&self) -> TargetModel {
        self.request.target()
    }

    /// The talk asks for a connection.
    pub closed spec fn wf(&self) -> bool {
        self.request.command() == SOCKS5_CMD_TCP_CONNECT
    }

    /// Starts to ask for a connection to `addr`: what has to be written first.
    pub fn connect(addr: Socks5Addr) -> (started: (Self, Vec<u8>))
        ensures
            started.0.wf(),
            started.0.stage() is HandShake,
            started.0.target() == addr@,
            started.1@ == handshake_bytes(seq![SOCKS5_AUTH_METHOD_NONE]),
    {
        let methods = vec![SOCKS5_AUTH_METHOD_NONE];
        proof {
            assert(methods@ =~= seq![SOCKS5_AUTH_METHOD_NONE]);
        }
        let hello = HandShakeRequest::new(methods).to_bytes();
        let request = Socks5TcpRequest::new(SOCKS5_CMD_TCP_CONNECT, addr);
        (Sock5TcpStream { stage: ConnectStage::HandShake, request }, hello)
    }

    /// How many bytes have to be read next.
    pub fn wants(&self) -> (n: usize)
        ensures
            n == stage_len(self.stage()),
    {
        match self.stage {
            ConnectStage::HandShake => 2,
            ConnectStage::Head => 4,
            ConnectStage::Tail(head) => if head.v6 {
                18
            } else {
                6
            },
            ConnectStage::Over => 0,
        }
    }

    /// Whether what was read can be taken: as much as `wants` said, and no address but an IP one.
    pub fn understands(&self, data: &[u8]) -> (yes: bool)
        ensures
            yes == understood(self.stage(), data@),
    {
        if data.len() != self.wants() {
            return false;
        }
        match self.stage {
            ConnectStage::Head => data[0] != SOCKS5_VERSION || data[3] == SOCKS5_ADDR_TYPE_IPV4
                || data[3] == SOCKS5_ADDR_TYPE_IPV6,
            _ => true,
        }
    }

    /// Takes what was read, which is as much as `wants` said.
    pub fn receive(&mut self, data: &[u8]) -> (step: ConnectStep)
        requires
            old(self).wf(),
            understood(old(self).stage(), data@),
        ensures
            final(self).wf(),
            final(self).target() == old(self).target(),
            (final(self).stage(), step@) == next_stage(
                old(self).stage(),
                old(self).target(),
                data@,
            ),
    {
        match self.stage {
            ConnectStage::HandShake => match HandShakeResponse::from_bytes([data[0], data[1]]) {
                Err(_) => {
                    self.stage = ConnectStage::Over;
                    ConnectStep::Failed(ConnectError::UnknownVersion)
                },
                Ok(response) => if response.choose_method != SOCKS5_AUTH_METHOD_NONE {
                    self.stage = ConnectStage::Over;
                    ConnectStep::Failed(ConnectError::ChooseMethod)
                } else {
                    self.stage = ConnectStage::Head;
                    ConnectStep::Write(self.request.to_bytes())
                },
            },
            ConnectStage::Head => match Socks5TcpResponse::read_head(
                [data[0], data[1], data[2], data[3]],
            ) {
                Err(_) => {
                    self.stage = ConnectStage::Over;
                    ConnectStep::Failed(ConnectError::UnknownVersion)
                },
                Ok(head) => {
                    self.stage = ConnectStage::Tail(head);
                    ConnectStep::Read
                },
            },
            ConnectStage::Tail(head) => {
                let response = Socks5TcpResponse::read_tail(head, data);
                self.stage = ConnectStage::Over;
                match response.reply {
                    Reply::Succeeded => ConnectStep::Connected,
                    other => ConnectStep::Failed(ConnectError::Refused(other)),
                }
            },
            ConnectStage::Over => ConnectStep::Read,
        }
    }
}

/// The talk with a proxy, read from its own bytes. The handshake goes on exactly where the proxy
/// speaks version five and wants no authentication; then the request for the target is written.
/// The response is read exactly where it is of version five, and it is as long as the type of its
/// address says. And there is a connection exactly where the proxy replies with zero: every other
/// reply is a refusal with that number.
pub proof fn law_the_proxy_decides(
    target: TargetModel,
    hello: Seq<u8>,
    head: Seq<u8>,
    tail: Seq<u8>,
)
    requires
        understood(ConnectStage::HandShake, hello),
        understood(ConnectStage::Head, head),
        tail.len() == (if head[3] == 4 {
            18nat
        } else {
            6
        }),
    ensures
        ({
            let (one, first) = next_stage(ConnectStage::HandShake, target, hello);
            let (two, second) = next_stage(ConnectStage::Head, target, head);
            let (three, third) = next_stage(two, target, tail);
            &&& hello.len() == 2 && head.len() == 4
            &&& match first {
                StepModel::Write(bytes) => {
                    &&& hello[0] == 5 && hello[1] == 0
                    &&& one is Head
                    &&& bytes == request_bytes(1, target)
                },
                StepModel::Failed(ConnectError::UnknownVersion) => hello[0] != 5 && one is Over,
                StepModel::Failed(ConnectError::ChooseMethod) => hello[0] == 5 && hello[1] != 0
                    && one is Over,
                _ => false,
            }
            &&& match second {
                StepModel::Read => head[0] == 5 && two is Tail && stage_len(two) == tail.len(),
                StepModel::Failed(ConnectError::UnknownVersion) => head[0] != 5 && two is Over,
                _ => false,
            }
            &&& head[0] == 5 ==> {
                &&& three is Over
                &&& match third {
                    StepModel::Connected => head[1] == 0,
                    StepModel::Failed(ConnectError::Refused(reply)) => head[1] != 0 && reply.code()
                        == head[1],
                    _ => false,
                }
            }
        }),
{
    law_reply_codes(head[1], Reply::Succeeded);
}

/// A connection comes of nothing but a reply of success: no other step of the talk ends in one, and
/// once the talk is over nothing is read and nothing comes of it any more.
pub proof fn law_connections_come_of_success(
    stage: ConnectStage,
    target: TargetModel,
    data: Seq<u8>,
)
    ensures
        next_stage(stage, target, data).1 is Connected <==> (stage matches ConnectStage::Tail(head)
            && head.reply == Reply::Succeeded),
        stage is Over ==> next_stage(stage, target, data) == (stage, StepModel::Read) && stage_len(
            stage,
        ) == 0,
        stage is Tail ==> next_stage(stage, target, data).0 is Over,
{
}

/// What was read is taken exactly where it is as long as the stage asks, unless it is the head of
/// a response of version five that announces an address of no known type.
pub proof fn law_whole_answers_are_understood(stage: ConnectStage, data: Seq<u8>)
    requires
        stage is HandShake ==> data.len() == 2,
        stage is Head ==> data.len() == 4,
        stage matches ConnectStage::Tail(head) ==> data.len() == (if head.v6 {
            18nat
        } else {
            6
        }),
        stage is Over ==> data.len() == 0,
    ensures
        understood(stage, data) <==> !(stage is Head && data[0] == 5 && data[3] != 1 && data[3]
            != 4),
{
}

} // verus!
