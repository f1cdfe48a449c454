//! What can be set from outside, and what holds where it is not.

use crate::text::{number_of, parse_number, parts, split_parts, texts, trim_text, trimmed};
use vstd::prelude::*;

verus! {

pub const NETSTACK_BUFF_SIZE: u64 = 512;

pub const NETSTACK_UDP_BUFF_SIZE: u64 = 256;

pub const UDP_RECV_CH_SIZE: u64 = 256;

/// In seconds.
pub const OUTBOUND_CONNECT_TIMEOUT: u64 = 10;

/// In seconds.
pub const LINK_COPY_TIMEOUT: u64 = 15;

/// In KiB.
pub const LINK_BUFFER_SIZE: u64 = 2;

pub const MAX_UDP_UPSTREAM: u64 = 3;

/// In seconds.
pub const UDP_SESSION_TIMEOUT: u64 = 15;

/// In seconds.
pub const DNS_SESSION_TIMEOUT: u64 = 5;

/// In seconds.
pub const TCP_KEEPALIVE_TIMEOUT: u64 = 600;

/// In seconds.
pub const TCP_KEEPALIVE_INTERVAL: u64 = 60;

pub const TCP_KEEPALIVE_RETRIES: u64 = 5;

pub const NETSTACK_OUTPUT_CHANNEL_SIZE: u64 = 512;

pub const NETSTACK_TCP_UPLINK_CHANNEL_SIZE: u64 = 256;

pub const NETSTACK_UDP_UPLINK_CHANNEL_SIZE: u64 = 256;

/// The address of the tunnel, 192.16.0.1.
pub const TUN_ADDRESS: u32 = 0xC010_0001;

/// The other end of the tunnel, 192.16.0.1.
pub const TUN_GATEWAY: u32 = 0xC010_0001;

/// The mask of the tunnel, 255.255.255.0.
pub const TUN_NETMASK: u32 = 0xFFFF_FF00;

/// The address of the proxy, 127.0.0.1.
pub const SOCKS5_IP: u32 = 0x7F00_0001;

/// The port of the proxy.
pub const SOCKS5_PORT: u16 = 1086;

/// The number that holds where a text may set one.
pub open spec fn set_number(text: Option<Seq<char>>, largest: u64, default: u64) -> u64 {
    match text {
        Some(t) => match number_of(t) {
            Some(n) => if n <= largest {
                n as u64
            } else {
                default
            },
            None => default,
        },
        None => default,
    }
}

/// What is set holds exactly where it is a number that is not too large: nothing, no number and
/// too large a one leave the default.
pub proof fn law_only_fitting_numbers_are_set(text: Seq<char>, largest: u64, default: u64)
    ensures
        set_number(None, largest, default) == default,
        number_of(text) is None ==> set_number(Some(text), largest, default) == default,
        number_of(text) matches Some(n) ==> {
            &&& n <= largest ==> set_number(Some(text), largest, default) == n
            &&& n > largest ==> set_number(Some(text), largest, default) == default
        },
{
}

/// A number that can be set: what `text` gives, where it gives one that is at most `largest`, and
/// else the default.
pub fn number_or(text: Option<&str>, largest: u64, default: u64) -> (number: u64)
    ensures
        number == (match text {
            Some(t) => match number_of(t@) {
                Some(n) if n <= largest => n as u64,
                _ => default,
            },
            None => default,
        }),
        number == set_number(
            match text {
                Some(t) => Some(t@),
                None => None,
            },
            largest,
            default,
        ),
{
    if let Some(text) = text {
        if let Some(number) = parse_number(text) {
            if number <= largest {
                return number;
            }
        }
    }
    default
}

/// A value that can be set: what was given, where it could be read, and else the default.
pub fn value_or<T>(given: Option<T>, default: T) -> (value: T)
    ensures
        value == (match given {
            Some(v) => v,
            None => default,
        }),
{
    match given {
        Some(value) => value,
        None => default,
    }
}

/// The names of the interfaces that connections leave by: what commas separate, without the
/// white space around it.
pub open spec fn interface_names(text: Option<Seq<char>>) -> Seq<Seq<char>> {
    match text {
        Some(t) => parts(t, ',').map_values(|part: Seq<char>| trimmed(part)),
        None => Seq::empty(),
    }
}

/// The names of the interfaces that connections leave by.
pub fn outbound_interfaces(text: Option<&str>) -> (names: Vec<String>)
    ensures
        texts(names@) == interface_names(
            match text {
                Some(t) => Some(t@),
                None => None,
            },
        ),
{
    let mut names: Vec<String> = Vec::new();
    if let Some(text) = text {
        let found = split_parts(text, ',');
        let mut i: usize = 0;
        while i < found.len()
            invariant
                i <= found@.len(),
                texts(found@) == parts(text@, ','),
                texts(names@) == interface_names(Some(text@)).take(i as int),
            decreases found@.len() - i,
        {
            let part = found[i].as_str();
            proof {
                assert(texts(found@)[i as int] == part@);
            }
            let name = trim_text(part).to_owned();
            let ghost before = texts(names@);
            names.push(name);
            proof {
                assert(texts(names@) =~= before.push(trimmed(part@)));
                assert(texts(names@) =~= interface_names(Some(text@)).take(i + 1));
            }
            i = i + 1;
        }
        proof {
            assert(texts(names@) =~= interface_names(Some(text@)));
        }
    } else {
        proof {
            assert(texts(names@) =~= interface_names(None));
        }
    }
    names
}

/// There is a name for each part between commas, in order and without the white space around it,
/// and none where nothing is set.
pub proof fn law_interfaces_are_named_between_commas(text: Seq<char>, i: int)
    requires
        0 <= i < parts(text, ',').len(),
    ensures
        interface_names(None).len() == 0,
        interface_names(Some(text)).len() == parts(text, ',').len(),
        interface_names(Some(text))[i] == trimmed(parts(text, ',')[i]),
{
}

} // verus!
