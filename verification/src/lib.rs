//! A transparent proxy core.

pub mod addr;
pub mod buffer;
pub mod cancelable;
pub mod cmd;
pub mod dns_message;
pub mod dns_proxy;
pub mod fake_dns;
pub mod fakedns;
pub mod net;
pub mod option;
pub mod power;
pub mod smux;
pub mod socks5;
pub mod stack;
pub mod table;
pub mod tcp;
pub mod tcp_tun;
pub mod text;
pub mod tunnel;
pub mod udp;
pub mod wire;

pub use tunnel::{Tun, TunBuilder};
