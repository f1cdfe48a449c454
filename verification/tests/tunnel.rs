use rtun::addr::IpAddr;
use rtun::cancelable::{Cancelable, CancelableResult, Progress};
use rtun::cmd::{
    bsd_default_gw_iface, bsd_route_args, lines_reach, linux_default_gw_iface, linux_if_addr,
    linux_route_args, RouteCommand,
};
use rtun::net::interface::{valid_name, IndexCache, INDEX_EXPIRE_NANOS};
use rtun::option::{number_or, outbound_interfaces, value_or};
use rtun::power::will_sleep;
use rtun::tunnel::{Monitor, PostTunSetup};
use rtun::{Tun, TunBuilder};

fn lines(text: &str) -> Vec<String> {
    text.lines().map(|l| l.to_string()).collect()
}

fn linux(list: Vec<RouteCommand>) -> Vec<String> {
    list.iter().map(|c| linux_route_args(c).join(" ")).collect()
}

fn bsd(list: Vec<RouteCommand>) -> Vec<String> {
    list.iter().map(|c| bsd_route_args(c).join(" ")).collect()
}

fn setup(default_gw: &str, ip: u32) -> PostTunSetup {
    PostTunSetup {
        gw: "192.16.0.1".to_string(),
        iface: "tun200".to_string(),
        default_gw: default_gw.to_string(),
        default_iface: "eth0".to_string(),
        default_iface_addr: IpAddr::V4(ip),
    }
}

#[test]
fn builder_collects() {
    let v4 = |n: u32| IpAddr::V4(n);
    let mut builder = TunBuilder::new(v4(1), v4(2), v4(3), "tun200");
    let config = builder.build();
    assert_eq!((config.address, config.destination, config.netmask), (v4(1), v4(2), v4(3)));
    assert_eq!((config.mtu, config.name.as_str(), config.up), (None, "tun200", true));
    builder.address(v4(4)).destination(v4(5)).netmask(v4(6)).mtu(1400);
    let config = builder.build();
    assert_eq!((config.address, config.destination, config.netmask), (v4(4), v4(5), v4(6)));
    assert_eq!(config.mtu, Some(1400));
    assert_eq!(Tun::new("device").device, "device");
}

#[test]
fn routes_into_the_tunnel() {
    let s = setup("10.0.0.1", 9);
    assert_eq!(
        linux(s.setup()),
        vec![
            "route del default table main",
            "route add default via 192.16.0.1 table main",
            "route add default via 10.0.0.1 dev eth0 table default",
        ]
    );
    assert_eq!(
        bsd(s.setup()),
        vec![
            "delete -inet default",
            "add -inet default 192.16.0.1",
            "add -inet default 10.0.0.1 -ifscope eth0",
        ]
    );
}

#[test]
fn routes_out_of_the_tunnel() {
    let s = setup("10.0.0.1", 9);
    assert_eq!(
        linux(s.unsetup()),
        vec!["route del default table default", "route add default via 10.0.0.1 table main"]
    );
    assert_eq!(
        bsd(s.unsetup()),
        vec!["delete -inet default -ifscope eth0", "add -inet default 10.0.0.1"]
    );
}

#[test]
fn monitor_follows_the_address() {
    let mut monitor = Monitor::new(setup("10.0.0.1", 9));
    assert!(!monitor.on_up());
    assert!(!monitor.on_down(IpAddr::V4(8)));
    assert!(!monitor.on_up());
    assert!(monitor.on_down(IpAddr::V4(9)));
    assert!(monitor.on_up());
    assert!(monitor.on_down(IpAddr::V4(9)));
    let list = monitor.on_restored(IpAddr::V4(7), setup("10.0.0.2", 7));
    assert_eq!(linux(list)[2], "route add default via 10.0.0.2 dev eth0 table default");
    assert!(!monitor.on_up());
    assert!(!monitor.on_down(IpAddr::V4(9)));
    assert!(monitor.on_down(IpAddr::V4(7)));
    assert_eq!(monitor.current().default_gw, "10.0.0.2");
    assert_eq!(linux(monitor.on_end())[1], "route add default via 10.0.0.2 table main");
}

#[test]
fn linux_route_output() {
    let out = "1.0.0.0 via 192.168.1.1 dev wlan0 src 192.168.1.5 uid 1000 \n    cache ";
    assert_eq!(
        linux_default_gw_iface(&lines(out)),
        ("192.168.1.1".to_string(), "wlan0".to_string())
    );
    assert_eq!(linux_default_gw_iface(&lines("nothing")), (String::new(), String::new()));
}

#[test]
fn linux_address_output() {
    let out = "2: wlan0: <UP> mtu 1500\n    inet 192.168.1.5/24 brd 192.168.1.255 scope global\n";
    assert_eq!(linux_if_addr(&lines(out)), "192.168.1.5");
    let both = format!("{}    inet6 fe80::1/64 scope link\n", out);
    assert_eq!(linux_if_addr(&lines(&both)), "fe80::1");
    assert_eq!(linux_if_addr(&lines("")), "");
}

#[test]
fn bsd_route_output() {
    let out = "   route to: 1\n    gateway: 192.168.1.1\n  interface: en0\n";
    assert_eq!(
        bsd_default_gw_iface(&lines(out)),
        ("192.168.1.1".to_string(), "en0".to_string())
    );
}

#[test]
fn numbers_from_outside() {
    assert_eq!(number_or(Some("7"), u64::MAX, 512), 7);
    assert_eq!(number_or(Some("+07"), u64::MAX, 512), 7);
    assert_eq!(number_or(Some("256"), 255, 3), 3);
    assert_eq!(number_or(Some("255"), 255, 3), 255);
    assert_eq!(number_or(Some("18446744073709551616"), u64::MAX, 5), 5);
    for text in ["", "+", "-1", " 1", "1 ", "x"] {
        assert_eq!(number_or(Some(text), u64::MAX, 512), 512);
    }
    assert_eq!(number_or(None, u64::MAX, 512), 512);
}

#[test]
fn values_from_outside() {
    assert_eq!(value_or(Some("given"), "default"), "given");
    assert_eq!(value_or(None, "default"), "default");
}

#[test]
fn interfaces_from_outside() {
    assert_eq!(outbound_interfaces(Some("en0, en1 ,\ten2")), vec!["en0", "en1", "en2"]);
    assert_eq!(outbound_interfaces(Some("")), vec![""]);
    assert!(outbound_interfaces(None).is_empty());
}

#[test]
fn work_that_is_called_off() {
    let mut work = Cancelable::new();
    assert!(work.is_live());
    assert!(matches!(
        work.settle(Progress::Ready(5)),
        Progress::Ready(CancelableResult::Result(5))
    ));
    assert!(matches!(work.settle::<u8>(Progress::Ended), Progress::Ended));
    assert!(matches!(work.settle::<u8>(Progress::Pending), Progress::Pending));
    work.cancel();
    assert!(!work.is_live());
    assert!(matches!(
        work.settle(Progress::Ready(5)),
        Progress::Ready(CancelableResult::Cancelled)
    ));
    assert!(matches!(
        work.settle::<u8>(Progress::Pending),
        Progress::Ready(CancelableResult::Cancelled)
    ));
}

#[test]
fn power_messages() {
    assert!(will_sleep(0xe0000280));
    assert!(!will_sleep(0xe0000300));
}

#[test]
fn interface_numbers_are_remembered_for_a_while() {
    let mut cache = IndexCache::new();
    assert_eq!(cache.get("en0", 0), None);
    cache.insert("en0", 4, 100);
    assert_eq!(cache.get("en0", 100), Some(4));
    assert_eq!(cache.get("en0", 99 + INDEX_EXPIRE_NANOS), Some(4));
    assert_eq!(cache.get("en0", 100 + INDEX_EXPIRE_NANOS), None);
    assert_eq!(cache.get("en1", 100), None);
    cache.insert("en0", 5, 200);
    assert_eq!(cache.get("en0", 200), Some(5));
}

#[test]
fn interface_names_are_short() {
    assert!(valid_name("en0"));
    assert!(valid_name("abcdefghijklmno"));
    assert!(!valid_name("abcdefghijklmnop"));
}

#[test]
fn lines_that_are_too_short() {
    let whole = lines("1.0.0.0 via 10.0.0.1 dev eth0 src 10.0.0.2\n    cache");
    assert!(lines_reach(&whole, "via", 4));
    assert!(!lines_reach(&whole, "via", 7));
    assert!(!lines_reach(&lines("a via b"), "via", 4));
    assert!(lines_reach(&lines("a by b"), "via", 4));
    assert!(lines_reach(&lines(""), "via", 4));
}
