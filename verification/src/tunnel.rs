//! The tunnel device: how it is set up, and how the routes follow the machine's own address.

use crate::addr::IpAddr;
use crate::cmd::{RouteCommand, RouteCommandModel};
use vstd::prelude::*;

verus! {

/// How the device is to be set up.
pub struct TunConfig {
    pub address: IpAddr,
    pub destination: IpAddr,
    pub netmask: IpAddr,
    pub mtu: Option<u16>,
    pub name: String,
    pub up: bool,
}

/// How the device is to be set up, as a value.
pub struct TunConfigModel {
    pub address: IpAddr,
    pub destination: IpAddr,
    pub netmask: IpAddr,
    pub mtu: Option<u16>,
    pub name: Seq<char>,
    pub up: bool,
}

impl View for TunConfig {
    type V = TunConfigModel;

    open spec fn view(&self) -> TunConfigModel {
        TunConfigModel {
            address: self.address,
            destination: self.destination,
            netmask: self.netmask,
            mtu: self.mtu,
            name: self.name@,
            up: self.up,
        }
    }
}

/// Collects how the device is to be set up.
pub struct TunBuilder {
    tun_config: TunConfig,
}

impl View for TunBuilder {
    type V = TunConfigModel;

    closed spec fn view(&self) -> TunConfigModel {
        self.tun_config@
    }
}

impl TunBuilder {
    /// A device that is up, with the given addresses and name.
    pub fn new(address: IpAddr, gateway: IpAddr, netmask: IpAddr, name: &str) -> (builder: Self)
        ensures
            builder@ == (TunConfigModel {
                address,
                destination: gateway,
                netmask,
                mtu: None,
                name: name@,
                up: true,
            }),
    {
        TunBuilder {
            tun_config: TunConfig {
                address,
                destination: gateway,
                netmask,
                mtu: None,
                name: name.to_owned(),
                up: true,
            },
        }
    }

    pub fn address(&mut self, addr: IpAddr) -> (builder: &mut TunBuilder)
        ensures
            builder@ == (TunConfigModel { address: addr, ..old(self)@ }),
            *final(self) == *final(builder),
    {
        self.tun_config.address = addr;
        self
    }

    pub fn mtu(&mut self, mtu: u16) -> (builder: &mut TunBuilder)
        ensures
            builder@ == (TunConfigModel { mtu: Some(mtu), ..old(self)@ }),
            *final(self) == *final(builder),
    {
        self.tun_config.mtu = Some(mtu);
        self
    }

    pub fn netmask(&mut self, netmask: IpAddr) -> (builder: &mut TunBuilder)
        ensures
            builder@ == (TunConfigModel { netmask, ..old(self)@ }),
            *final(self) == *final(builder),
    {
        self.tun_config.netmask = netmask;
        self
    }

    pub fn destination(&mut self, destination: IpAddr) -> (builder: &mut TunBuilder)
        ensures
            builder@ == (TunConfigModel { destination, ..old(self)@ }),
            *final(self) == *final(builder),
    {
        self.tun_config.destination = destination;
        self
    }

    /// How the device is to be set up.
    pub fn build(&self) -> (config: TunConfig)
        ensures
            config@ == self@,
    {
        TunConfig {
            address: self.tun_config.address,
            destination: self.tun_config.destination,
            netmask: self.tun_config.netmask,
            mtu: self.tun_config.mtu,
            name: self.tun_config.name.clone(),
            up: self.tun_config.up,
        }
    }
}

/// A tunnel over a device.
pub struct Tun<D> {
    pub device: D,
}

impl<D> Tun<D> {
    pub fn new(device: D) -> (tun: Self)
        ensures
            tun.device == device,
    {
        Tun { device }
    }
}

/// The routes: those of the tunnel and the default one that was there before it.
pub struct PostTunSetup {
    pub gw: String,
    pub iface: String,
    pub default_gw: String,
    pub default_iface: String,
    pub default_iface_addr: IpAddr,
}

/// The commands of a list, as values.
pub open spec fn commands(list: Seq<RouteCommand>) -> Seq<RouteCommandModel> {
    list.map_values(|command: RouteCommand| command@)
}

/// What leads everything into the tunnel, and keeps the old default route beside.
pub open spec fn setup_commands(s: PostTunSetup) -> Seq<RouteCommandModel> {
    seq![
        RouteCommandModel::Delete(None),
        RouteCommandModel::Add { gw: s.gw@, iface: s.iface@, primary: true },
        RouteCommandModel::Add { gw: s.default_gw@, iface: s.default_iface@, primary: false },
    ]
}

/// What brings the old default route back.
pub open spec fn unsetup_commands(s: PostTunSetup) -> Seq<RouteCommandModel> {
    seq![
        RouteCommandModel::Delete(Some(s.default_iface@)),
        RouteCommandModel::Add { gw: s.default_gw@, iface: s.default_iface@, primary: true },
    ]
}

impl PostTunSetup {
    /// What has to be run, in order, to lead everything into the tunnel.
    pub fn setup(&self) -> (list: Vec<RouteCommand>)
        ensures
            commands(list@) == setup_commands(*self),
    {
        let list = vec![
            RouteCommand::Delete(None),
            RouteCommand::Add { gw: self.gw.clone(), iface: self.iface.clone(), primary: true },
            RouteCommand::Add {
                gw: self.default_gw.clone(),
                iface: self.default_iface.clone(),
                primary: false,
            },
        ];
        proof {
            assert(commands(list@) =~= setup_commands(*self));
        }
        list
    }

    /// What has to be run, in order, when the tunnel goes away.
    pub fn unsetup(&self) -> (list: Vec<RouteCommand>)
        ensures
            commands(list@) == unsetup_commands(*self),
    {
        let list = vec![
            RouteCommand::Delete(Some(self.default_iface.clone())),
            RouteCommand::Add {
                gw: self.default_gw.clone(),
                iface: self.default_iface.clone(),
                primary: true,
            },
        ];
        proof {
            assert(commands(list@) =~= unsetup_commands(*self));
        }
        list
    }
}

/// How long to wait before the routes are read again, in milliseconds: right after an address has
/// come up this may fail.
pub const RESETTLE_MILLIS: u64 = 500;

/// Whether there is an address after one has gone: not where the one that went was it.
pub open spec fn still_up(up: bool, own: IpAddr, gone: IpAddr) -> bool {
    up && own != gone
}

/// Only the machine's own address going takes it down, and nothing that goes brings it up.
pub proof fn law_only_the_own_address_counts(up: bool, own: IpAddr, gone: IpAddr)
    ensures
        !still_up(up, own, own),
        gone != own ==> still_up(up, own, gone) == up,
{
}

/// Watches the machine's own address: when it goes, the connections are ended, and when there is
/// one again, the routes are set up anew.
pub struct Monitor {
    setup: PostTunSetup,
    default_ipaddr: IpAddr,
    default_iface_up: bool,
}

impl Monitor {
    pub closed spec fn setup(&self) -> PostTunSetup {
        self.setup
    }

    pub closed spec fn ipaddr(&self) -> IpAddr {
        self.default_ipaddr
    }

    pub closed spec fn up(&self) -> bool {
        self.default_iface_up
    }

    /// The address is there, and the routes are set up.
    pub fn new(setup: PostTunSetup) -> (monitor: Self)
        ensures
            monitor.setup() == setup,
            monitor.ipaddr() == setup.default_iface_addr,
            monitor.up(),
    {
        let default_ipaddr = setup.default_iface_addr;
        Monitor { setup, default_ipaddr, default_iface_up: true }
    }

    /// The routes as they were set up last.
    pub fn current(&self) -> (setup: &PostTunSetup)
        ensures
            *setup == self.setup(),
    {
        &self.setup
    }

    /// Some address has come up. Says whether the default interface has to be looked at.
    pub fn on_up(&self) -> (look: bool)
        ensures
            look == !self.up(),
    {
        !self.default_iface_up
    }

    /// The default interface has the address `ip` again, and the routes were read anew: what has
    /// to be run.
    pub fn on_restored(&mut self, ip: IpAddr, setup: PostTunSetup) -> (list: Vec<RouteCommand>)
        ensures
            final(self).setup() == setup,
            final(self).ipaddr() == ip,
            final(self).up(),
            commands(list@) == setup_commands(setup),
    {
        let list = setup.setup();
        self.setup = setup;
        self.default_ipaddr = ip;
        self.default_iface_up = true;
        list
    }

    /// An address has gone. Says whether it was that of the default interface, so that the
    /// connections have to be ended.
    pub fn on_down(&mut self, ip: IpAddr) -> (notify: bool)
        ensures
            notify == (ip == old(self).ipaddr()),
            final(self).setup() == old(self).setup(),
            final(self).ipaddr() == old(self).ipaddr(),
            final(self).up() == (old(self).up() && !notify),
            final(self).up() == still_up(old(self).up(), old(self).ipaddr(), ip),
    {
        if self.default_ipaddr == ip {
            self.default_iface_up = false;
            true
        } else {
            false
        }
    }

    /// The watch is over: what has to be run.
    pub fn on_end(&self) -> (list: Vec<RouteCommand>)
        ensures
            commands(list@) == unsetup_commands(self.setup()),
    {
        self.setup.unsetup()
    }
}

/// The default route that was there before the tunnel, as the main one, is what taking the tunnel
/// down ends with, and setting it up keeps it beside.
pub proof fn law_default_route_comes_back(s: PostTunSetup)
    ensures
        unsetup_commands(s).last() == (RouteCommandModel::Add {
            gw: s.default_gw@,
            iface: s.default_iface@,
            primary: true,
        }),
        setup_commands(s).last() == (RouteCommandModel::Add {
            gw: s.default_gw@,
            iface: s.default_iface@,
            primary: false,
        }),
{
}

/// Setting the tunnel up takes the old default route away before it adds the one into the tunnel,
/// as the main one, and then adds the old one beside it. Taking it down takes what was added beside
/// away and makes the old one the main one again: the same route, by the same gateway and the same
/// interface.
pub proof fn law_routes_change_in_order(s: PostTunSetup)
    ensures
        ({
            let up = setup_commands(s);
            let down = unsetup_commands(s);
            &&& up.len() == 3 && down.len() == 2
            &&& up[0] == RouteCommandModel::Delete(None)
            &&& up[1] == (RouteCommandModel::Add { gw: s.gw@, iface: s.iface@, primary: true })
            &&& up[2] == (RouteCommandModel::Add {
                gw: s.default_gw@,
                iface: s.default_iface@,
                primary: false,
            })
            &&& down[0] == RouteCommandModel::Delete(Some(s.default_iface@))
            &&& down[1] == (RouteCommandModel::Add {
                gw: s.default_gw@,
                iface: s.default_iface@,
                primary: true,
            })
        }),
{
}

} // verus!
