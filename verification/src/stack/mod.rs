//! The user-space network stack: packets from the tunnel are told apart by protocol and handed to
//! the part that deals with it.

pub mod byte_ring;
pub mod ingress;
pub mod ip;
pub mod manager;
pub mod socket;
pub mod tcp;
pub mod udp;

use crate::stack::ip::{
    law_ipv4_packets_are_read, law_ipv6_packets_are_read, packet_model, IpPacket, IpProtocol,
    MalformedPacket,
};
use vstd::prelude::*;

verus! {

/// The largest packet that the stack makes.
pub const STACK_MTU: u32 = 1500;

/// How the stack's network interface is set up.
#[derive(Debug, Clone, Copy, PartialEq, Eq)]
pub struct InterfaceSettings {
    /// The largest packet.
    pub mtu: usize,
    /// The address of version 4, and its prefix length.
    pub ipv4: (u32, u8),
    /// The address of version 6, and its prefix length.
    pub ipv6: (u128, u8),
    /// Packets for any address are taken.
    pub any_ip: bool,
    /// Checksums are made for what is sent, and not looked at in what is received.
    pub checksum_tx_only: bool,
}

/// The interface that takes everything that comes out of the tunnel, with itself as the gateway.
pub fn interface_settings(mtu: u32) -> (settings: InterfaceSettings)
    ensures
        settings == (InterfaceSettings {
            mtu: mtu as usize,
            ipv4: (1, 0),
            ipv6: (1, 0),
            any_ip: true,
            checksum_tx_only: true,
        }),
{
    InterfaceSettings {
        mtu: mtu as usize,
        ipv4: (1, 0),
        ipv6: (1, 0),
        any_ip: true,
        checksum_tx_only: true,
    }
}

/// Where packets go inside the stack.
#[derive(Debug, Clone, Copy, PartialEq, Eq, Structural)]
pub enum Channel {
    Tcp,
    Udp,
    Icmp,
}

/// The channel for the packets of a protocol, where the stack deals with it.
pub open spec fn channel_of(protocol: IpProtocol) -> Option<Channel> {
    match protocol {
        IpProtocol::Tcp => Some(Channel::Tcp),
        IpProtocol::Udp => Some(Channel::Udp),
        IpProtocol::Icmp => Some(Channel::Icmp),
        IpProtocol::Icmpv6 => Some(Channel::Icmp),
        IpProtocol::Unknown(_) => None,
    }
}

fn choose_channel(protocol: IpProtocol) -> (channel: Option<Channel>)
    ensures
        channel == channel_of(protocol),
{
    match protocol {
        IpProtocol::Tcp => Some(Channel::Tcp),
        IpProtocol::Udp => Some(Channel::Udp),
        IpProtocol::Icmp | IpProtocol::Icmpv6 => Some(Channel::Icmp),
        IpProtocol::Unknown(_) => None,
    }
}

/// The entrance of the stack as a value.
pub struct StackModel {
    /// The packet that waits to go in, and where it goes.
    pub send_pkg: Option<(Seq<u8>, Channel)>,
    /// Whether a place in the channel has been reserved.
    pub send_ready: bool,
}

/// What offering a packet comes to, and the entrance after it. A packet that comes while another
/// one waits is lost, and so is one of a protocol that the stack does not deal with.
pub open spec fn offered(m: StackModel, packet: Seq<u8>) -> (
    StackModel,
    Result<(), MalformedPacket>,
) {
    if m.send_pkg is Some {
        (m, Ok(()))
    } else {
        match packet_model(packet) {
            None => (m, Err(MalformedPacket)),
            Some(p) => match channel_of(p.protocol) {
                Some(channel) => (
                    StackModel { send_pkg: Some((packet, channel)), ..m },
                    Ok(()),
                ),
                None => (m, Ok(())),
            },
        }
    }
}

/// The channel in which a place has to be had, where one has to be.
pub open spec fn wants_place(m: StackModel) -> Option<Channel> {
    match m.send_pkg {
        Some((_, channel)) => if m.send_ready {
            None
        } else {
            Some(channel)
        },
        None => None,
    }
}

/// The entrance after the packet that waited was taken.
pub open spec fn emptied(m: StackModel) -> StackModel {
    StackModel { send_pkg: None, ..m }
}

/// The entrance after a place was had, or after it was used.
pub open spec fn with_place(m: StackModel, ready: bool) -> StackModel {
    StackModel { send_ready: ready, ..m }
}

/// What sending the packet that waits begins with.
pub enum Flush {
    /// There is none.
    Idle,
    /// A place in the channel has to be had first.
    Reserve(Vec<u8>, Channel),
    /// It can be put into the channel.
    Send(Vec<u8>, Channel),
}

/// What came of asking for a place in a channel.
#[derive(Debug, Clone, Copy, PartialEq, Eq, Structural)]
pub enum Readiness {
    Pending,
    Ready,
    Failed,
}

/// What to do once a place was asked for.
pub enum Reserved {
    /// Come back later. The packet is gone.
    Pending,
    /// The channel is closed. The packet is gone.
    Failed,
    /// The packet can be put into the channel.
    Send(Vec<u8>, Channel),
}

/// Makes a stack.
#[derive(Debug, Clone, Copy, PartialEq, Eq, Structural)]
pub struct StackBuidler {}

impl StackBuidler {
    pub fn new() -> (builder: StackBuidler)
        ensures
            builder == (StackBuidler {  }),
    {
        StackBuidler {  }
    }

    /// The entrance of a stack that no packet has reached yet.
    pub fn build(self) -> (stack: Stack)
        ensures
            stack@ == (StackModel { send_pkg: None, send_ready: false }),
    {
        Stack { send_pkg: None, send_ready: false }
    }
}

/// The entrance of the stack: one packet at a time waits there for its channel.
pub struct Stack {
    send_pkg: Option<(Vec<u8>, Channel)>,
    send_ready: bool,
}

impl View for Stack {
    type V = StackModel;

    closed spec fn view(&self) -> StackModel {
        StackModel {
            send_pkg: match self.send_pkg {
                Some((packet, channel)) => Some((packet@, channel)),
                None => None,
            },
            send_ready: self.send_ready,
        }
    }
}

impl Stack {
    /// Whether a packet waits.
    pub fn has_packet(&self) -> (has: bool)
        ensures
            has == (self@.send_pkg is Some),
    {
        self.send_pkg.is_some()
    }

    /// The channel in which a place has to be had before anything else can go in.
    pub fn poll_ready(&self) -> (reserve: Option<Channel>)
        ensures
            reserve == (match self@.send_pkg {
                Some((_, channel)) if !self@.send_ready => Some(channel),
                _ => None,
            }),
            reserve == wants_place(self@),
    {
        match &self.send_pkg {
            Some((_, channel)) => if self.send_ready {
                None
            } else {
                Some(*channel)
            },
            None => None,
        }
    }

    /// A place in the channel of the packet that waits has been had.
    pub fn reserved(&mut self)
        ensures
            final(self)@ == (StackModel { send_ready: true, ..old(self)@ }),
            final(self)@ == with_place(old(self)@, true),
    {
        self.send_ready = true;
    }

    /// Offers a packet.
    pub fn start_send(&mut self, item: Vec<u8>) -> (res: Result<(), MalformedPacket>)
        requires
            old(self)@.send_pkg is None ==> item@.len() > 0,
        ensures
            (final(self)@, res) == offered(old(self)@, item@),
    {
        if self.send_pkg.is_some() {
            return Ok(());
        }
        let protocol = match IpPacket::new_checked(item.as_slice()) {
            Ok(packet) => packet.protocol(),
            Err(e) => return Err(e),
        };
        if let Some(channel) = choose_channel(protocol) {
            self.send_pkg = Some((item, channel));
        }
        Ok(())
    }

    /// Takes the packet that waits.
    pub fn flush(&mut self) -> (flush: Flush)
        ensures
            final(self)@ == (StackModel { send_pkg: None, ..old(self)@ }),
            final(self)@ == emptied(old(self)@),
            match old(self)@.send_pkg {
                None => flush is Idle,
                Some((packet, channel)) => if old(self)@.send_ready {
                    flush matches Flush::Send(p, c) && p@ == packet && c == channel
                } else {
                    flush matches Flush::Reserve(p, c) && p@ == packet && c == channel
                },
            },
    {
        match self.send_pkg.take() {
            None => Flush::Idle,
            Some((packet, channel)) => if self.send_ready {
                Flush::Send(packet, channel)
            } else {
                Flush::Reserve(packet, channel)
            },
        }
    }

    /// Goes on with a packet once a place in its channel was asked for.
    pub fn after_reserve(
        &mut self,
        packet: Vec<u8>,
        channel: Channel,
        readiness: Readiness,
    ) -> (reserved: Reserved)
        ensures
            match readiness {
                Readiness::Pending => reserved is Pending && final(self)@ == old(self)@,
                Readiness::Failed => reserved is Failed && final(self)@ == old(self)@,
                Readiness::Ready => {
                    &&& reserved == Reserved::Send(packet, channel)
                    &&& final(self)@ == (StackModel { send_ready: true, ..old(self)@ })
                },
            },
    {
        match readiness {
            Readiness::Pending => Reserved::Pending,
            Readiness::Failed => Reserved::Failed,
            Readiness::Ready => {
                self.send_ready = true;
                Reserved::Send(packet, channel)
            },
        }
    }

    /// Takes note of whether the channel took a packet. The place is used up if it did.
    pub fn after_send(&mut self, taken: bool)
        ensures
            final(self)@ == (StackModel {
                send_ready: old(self)@.send_ready && !taken,
                ..old(self)@
            }),
            taken ==> final(self)@ == with_place(old(self)@, false),
    {
        if taken {
            self.send_ready = false;
        }
    }
}

/// A well-formed packet of a protocol that the stack deals with, offered while none waits, is the
/// one that waits then, for the channel of its protocol; and the next one is lost.
pub proof fn law_one_packet_waits(m: StackModel, packet: Seq<u8>, next: Seq<u8>)
    requires
        m.send_pkg is None,
        packet_model(packet) is Some,
        channel_of(packet_model(packet).unwrap().protocol) is Some,
    ensures
        ({
            let (n, res) = offered(m, packet);
            &&& res is Ok
            &&& n.send_pkg == Some(
                (packet, channel_of(packet_model(packet).unwrap().protocol).unwrap()),
            )
            &&& offered(n, next) == (n, Ok::<(), MalformedPacket>(()))
        }),
{
}

/// Where a packet goes is settled by the number of its protocol: what is in channel `Tcp` is TCP,
/// what is in `Udp` is UDP, and both versions of ICMP share a channel. A packet of any other
/// protocol is lost without an error.
pub proof fn law_packets_wait_for_the_channel_of_their_protocol(
    m: StackModel,
    packet: Seq<u8>,
    number: u8,
)
    requires
        m.send_pkg is None,
        packet[0] / 16 == 4 && 20 <= packet.len() && 4 * (packet[0] % 16) <= packet[2] * 256
            + packet[3] <= packet.len() && number == packet[9] || packet[0] / 16 == 6 && 40
            <= packet.len() && 40 + packet[4] * 256 + packet[5] <= packet.len() && number
            == packet[6],
    ensures
        ({
            let (n, res) = offered(m, packet);
            let handled = number == 6 || number == 17 || number == 1 || number == 58;
            &&& res is Ok
            &&& n.send_ready == m.send_ready
            &&& n.send_pkg is Some <==> handled
            &&& n.send_pkg matches Some((p, channel)) ==> {
                &&& p == packet
                &&& channel is Tcp <==> number == 6
                &&& channel is Udp <==> number == 17
                &&& channel is Icmp <==> number == 1 || number == 58
            }
        }),
{
    if packet[0] / 16 == 4 {
        law_ipv4_packets_are_read(packet);
    } else {
        law_ipv6_packets_are_read(packet);
    }
}

/// What is no packet is refused, and changes nothing; but while a packet waits nothing is looked
/// at, and that packet stays.
pub proof fn law_refused_packets_change_nothing(m: StackModel, packet: Seq<u8>)
    ensures
        offered(m, packet).1 is Err <==> m.send_pkg is None && packet_model(packet) is None,
        offered(m, packet).1 is Err || m.send_pkg is Some ==> offered(m, packet).0 == m,
{
}

/// A packet that waits keeps its place and its channel while a place there is had, a place has to
/// be had exactly where one waits and none was had, and once it was taken another can come.
pub proof fn law_packets_wait_for_a_place(m: StackModel, packet: Seq<u8>)
    ensures
        wants_place(m) is Some <==> m.send_pkg is Some && !m.send_ready,
        wants_place(m) matches Some(channel) ==> m.send_pkg matches Some((_, c)) && c == channel,
        with_place(m, true).send_pkg == m.send_pkg,
        wants_place(with_place(m, true)) is None,
        wants_place(emptied(m)) is None,
        emptied(m).send_ready == m.send_ready,
        with_place(m, false).send_pkg == m.send_pkg && !with_place(m, false).send_ready,
        packet_model(packet) matches Some(p) ==> (channel_of(p.protocol) matches Some(channel)
            ==> offered(emptied(m), packet).0.send_pkg == Some((packet, channel))),
{
}

} // verus!
