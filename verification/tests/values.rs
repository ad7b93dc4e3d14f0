//! Texts, numbers, quantities, times, addresses and maps.
use zfs_evacuation_controller::cluster::{Node, NodeAddress, NodeSpec, NodeStatus, ObjectMeta};
use zfs_evacuation_controller::controller::clock::{
    now, rfc3339_at, secs_since_at, Moment, LAST_SECOND,
};
use zfs_evacuation_controller::controller::state_machine::{
    destination_handle, source_handle_fits_snapshot_label,
};
use zfs_evacuation_controller::controller::transfer::{
    bkp_name, node_ips, relay_peers, rst_name, snapshot_name,
};
use zfs_evacuation_controller::controller::{
    now_rfc3339, parse_quantity, parse_quantity_or_bytes, secs_since,
};
use zfs_evacuation_controller::natural::Natural;
use zfs_evacuation_controller::string_map::StringMap;
use zfs_evacuation_controller::text::{
    before, join, parse_i64, parse_u128, parse_u8, to_decimal, to_hex, trim,
};
use zfs_evacuation_controller::transfer::relay::{peer_allowed, stream_outcome, IpAddr, IpNet};

fn moment(secs: u64, nanos: u32) -> Option<Moment> {
    Some(Moment { secs, nanos })
}

// ------------------------------------------------------------------ quantities

const SUFFIXES: [(&str, u128); 12] = [
    ("Ki", 1 << 10),
    ("Mi", 1 << 20),
    ("Gi", 1 << 30),
    ("Ti", 1 << 40),
    ("Pi", 1 << 50),
    ("Ei", 1 << 60),
    ("k", 1_000),
    ("M", 1_000_000),
    ("G", 1_000_000_000),
    ("T", 1_000_000_000_000),
    ("P", 1_000_000_000_000_000),
    ("E", 1_000_000_000_000_000_000),
];

// Quantities round exactly as double precision does.
#[test]
fn quantities_agree_with_double_precision() {
    let numbers = [
        "0",
        "-0",
        "1",
        "+7",
        "1.5",
        ".5",
        "5.",
        "0.1",
        "0.3",
        "1.001",
        "2.675",
        "123456789",
        "123456789.987654321",
        "9007199254740993",
        "18446744073709551615",
        "340282366920938463463374607431768211456",
        "99999999999999999999999999999999999999999999",
        "0.000000000000000000000000000001",
        "4.35",
        "1152921504606846977",
        "8.000000000000001",
        "0.1000000000000000055511151231257827021181583404541015625",
    ];
    for number in numbers {
        for (suffix, factor) in SUFFIXES {
            let value: f64 = number.parse().unwrap();
            let expected = (value * factor as f64) as u128;
            let text = format!("{number}{suffix}");
            assert_eq!(parse_quantity(&text), Some(expected), "{text}");
        }
    }
}

#[test]
fn quantities_that_are_none() {
    for text in [
        "", "Gi", "1", "1024", "1KiB", "1gi", "1 Gi", "-1Gi", "+-1Gi", "1.2.3Gi", ".Gi", "-Gi",
        "1e3Gi", "Gi1", "\u{661}Gi", "--5k",
    ] {
        assert_eq!(parse_quantity(text), None, "{text}");
    }
    assert_eq!(parse_quantity(" 1Ki "), Some(1024));
    assert_eq!(parse_quantity("1.001k"), Some(1000));
    assert_eq!(parse_quantity("-0Gi"), Some(0));
    assert_eq!(parse_quantity_or_bytes(" 42 "), Some(42));
    assert_eq!(parse_quantity_or_bytes("+42"), Some(42));
    assert_eq!(parse_quantity_or_bytes("1.5"), None);
    assert_eq!(parse_quantity_or_bytes("340282366920938463463374607431768211455"), Some(u128::MAX));
    assert_eq!(parse_quantity_or_bytes("340282366920938463463374607431768211456"), None);
}

// Whole numbers of at most 53 binary digits are scaled without loss.
#[test]
fn small_whole_quantities_are_exact() {
    for n in [1u128, 3, 1000, 8_388_607] {
        assert_eq!(parse_quantity(&format!("{n}Gi")), Some(n << 30));
        assert_eq!(parse_quantity(&format!("{n}G")), Some(n * 1_000_000_000));
    }
    assert_eq!(parse_quantity("8388609Gi"), Some(8_388_609 << 30));
}

#[test]
fn natural_numbers_of_any_size() {
    let a = Natural::from_u64(u64::MAX).times_plus(10, 7);
    let b = Natural::from_u64(u64::MAX).times_plus(10, 8);
    assert!(a.less(&b) && !b.less(&a) && !a.less(&a));
    assert!(!b.minus(&a).is_zero());
    assert!(a.minus(&a).is_zero() && Natural::zero().is_zero());
    assert!(!b.minus(&a).less(&Natural::from_u64(1)) && b.minus(&a).less(&Natural::from_u64(2)));
}

// ------------------------------------------------------------------ times

#[test]
fn times_are_recorded_to_the_second() {
    assert_eq!(rfc3339_at(moment(0, 0)), "1970-01-01T00:00:00Z");
    assert_eq!(rfc3339_at(moment(1_700_000_000, 999_999_999)), "2023-11-14T22:13:20Z");
    assert_eq!(rfc3339_at(moment(LAST_SECOND, 0)), "9999-12-31T23:59:59Z");
    assert_eq!(rfc3339_at(moment(u64::MAX, 0)), "9999-12-31T23:59:59Z");
    assert_eq!(rfc3339_at(None), "1970-01-01T00:00:00Z");
}

#[test]
fn whole_seconds_since_a_recorded_time() {
    let at = "2023-11-14T22:13:20Z";
    assert_eq!(secs_since_at(at, moment(1_700_000_000, 0)), Some(0));
    assert_eq!(secs_since_at(at, moment(1_700_000_089, 999_999_999)), Some(89));
    assert_eq!(secs_since_at("2023-11-14T22:13:20.5Z", moment(1_700_000_001, 0)), Some(0));
    assert_eq!(secs_since_at("2023-11-14T22:13:20.5Z", moment(1_700_000_000, 0)), None);
    assert_eq!(secs_since_at(at, moment(1_699_999_999, 0)), None);
    assert_eq!(secs_since_at("yesterday", moment(1_700_000_000, 0)), None);
    assert_eq!(secs_since_at(at, None), None);
}

// A recorded time is read back as the second it was recorded in.
#[test]
fn recorded_times_are_read_back() {
    for secs in [0, 1, 86_399, 951_782_400, 1_700_000_000, LAST_SECOND] {
        let text = rfc3339_at(moment(secs, 123));
        assert_eq!(secs_since_at(&text, moment(secs, 123)), Some(0));
        assert_eq!(secs_since_at(&text, moment(secs + 77, 0)), Some(77));
    }
    let elapsed = secs_since(&now_rfc3339());
    assert!(matches!(elapsed, Some(n) if n < 5), "{elapsed:?}");
    assert!(now().unwrap().secs > 1_600_000_000);
    assert_eq!(secs_since("9999-12-31T23:59:59Z"), None);
}

// ------------------------------------------------------------------ addresses

#[test]
fn addresses_are_read_strictly() {
    assert_eq!(IpAddr::parse("127.0.0.1"), Some(IpAddr::V4(0x7f00_0001)));
    assert_eq!(IpAddr::parse("255.255.255.255"), Some(IpAddr::V4(u32::MAX)));
    assert_eq!(IpAddr::parse("::"), Some(IpAddr::V6(0)));
    assert_eq!(IpAddr::parse("::1"), Some(IpAddr::V6(1)));
    assert_eq!(
        IpAddr::parse("2001:db8::ff00:42:8329"),
        Some(IpAddr::V6(0x2001_0db8_0000_0000_0000_ff00_0042_8329))
    );
    assert_eq!(IpAddr::parse("::ffff:1.2.3.4"), Some(IpAddr::V6(0xffff_0102_0304)));
    assert_eq!(IpAddr::parse("1:2:3:4:5:6:7:8"), Some(IpAddr::V6(0x0001_0002_0003_0004_0005_0006_0007_0008)));
    for text in [
        "", "1.2.3", "1.2.3.4.5", "256.1.1.1", "01.2.3.4", " 1.2.3.4", "1.2.3.4 ", "a.b.c.d",
        "1..2.3", ":", ":::", "1:2:3:4:5:6:7", "1:2:3:4:5:6:7:8:9", "12345::", "::1::", "g::",
    ] {
        assert_eq!(IpAddr::parse(text), None, "{text}");
    }
}

// A gap stands for at least one group, and an IPv4 tail only ends an address.
#[test]
fn gaps_and_tails_of_addresses() {
    let v6 = |n: u128| Some(IpAddr::V6(n));
    assert_eq!(IpAddr::parse("1::"), v6(1 << 112));
    assert_eq!(IpAddr::parse("1::8"), v6((1 << 112) + 8));
    assert_eq!(
        IpAddr::parse("1:2:3:4:5:6:7::"),
        v6(0x0001_0002_0003_0004_0005_0006_0007_0000)
    );
    assert_eq!(IpAddr::parse("::2:3:4:5:6:7:8"), v6(0x0002_0003_0004_0005_0006_0007_0008));
    assert_eq!(IpAddr::parse("::1.2.3.4"), v6(0x0102_0304));
    assert_eq!(
        IpAddr::parse("1:2:3:4:5:6:1.2.3.4"),
        v6(0x0001_0002_0003_0004_0005_0006_0102_0304)
    );
    assert_eq!(IpAddr::parse("ABCD::ef"), v6((0xabcd << 112) + 0xef));
    assert_eq!(IpAddr::parse("0001:0000::"), v6(1 << 112));
    for text in [
        "1.2.3.4::", "::ffff:01.2.3.4", "00001::", "1:2:3:4:5:6:7:1.2.3.4", "::1:2:3:4:5:6:7:8",
        "1.2.3.4:1", "1:2:3:4::5:6:7:8",
    ] {
        assert_eq!(IpAddr::parse(text), None, "{text}");
    }
}

#[test]
fn networks_are_matched_by_prefix() {
    let ip = |s: &str| IpAddr::parse(s).unwrap();
    let all = IpNet::parse_cidr("0.0.0.0/0").unwrap();
    assert!(all.contains(ip("203.0.113.9")) && !all.contains(ip("::1")));
    let v6 = IpNet::parse_cidr(" 2001:db8:: / 32 ").unwrap();
    assert!(v6.contains(ip("2001:db8:ffff::1")) && !v6.contains(ip("2001:db9::1")));
    assert!(IpNet::parse_cidr("::/0").unwrap().contains(ip("::1")));
    assert_eq!(IpNet::parse_cidr("::1/129"), None);
    assert_eq!(IpNet::parse_cidr("10.0.0.0/-1"), None);
    assert_eq!(IpNet::parse_cidr("10.0.0.0"), None);
    assert_eq!(IpNet::parse_cidr("10.0.0.0/8/8"), None);
    // A shorter prefix only widens, and a host is alone.
    let narrow = IpNet::parse_cidr("10.1.2.0/24").unwrap();
    let wide = IpNet { addr: narrow.addr, prefix: 16 };
    assert!(!narrow.contains(ip("10.1.3.1")) && wide.contains(ip("10.1.3.1")));
    let host = IpNet::host(ip("2001:db8::7"));
    assert_eq!(host.prefix, 128);
    assert!(host.contains(ip("2001:db8::7")) && !host.contains(ip("2001:db8::6")));
    // An empty allowlist rejects everyone.
    assert!(!peer_allowed(&vec![], ip("10.1.2.3")));
    assert!(peer_allowed(&vec![host, narrow], ip("10.1.2.3")));
    assert!(!peer_allowed(&vec![host, narrow], ip("10.1.3.3")));
}

#[test]
fn peers_of_a_node() {
    let address = |type_: &str, address: &str| NodeAddress {
        type_: type_.to_string(),
        address: address.to_string(),
    };
    let node = Node {
        metadata: ObjectMeta { name: Some("n".to_string()), ..ObjectMeta::default() },
        spec: Some(NodeSpec {
            pod_cidr: Some("10.42.1.0/24".to_string()),
            pod_cidrs: Some(vec!["10.42.1.0/24".to_string(), "fd00::/64".to_string(), "?".to_string()]),
            ..NodeSpec::default()
        }),
        status: Some(NodeStatus {
            addresses: Some(vec![
                address("Hostname", "10.9.9.9"),
                address("InternalIP", "192.168.1.7"),
                address("ExternalIP", "2001:db8::1"),
                address("InternalIP", "not an address"),
            ]),
            ..NodeStatus::default()
        }),
    };
    let ips = vec![IpAddr::parse("192.168.1.7").unwrap(), IpAddr::parse("2001:db8::1").unwrap()];
    assert_eq!(node_ips(&node), ips);
    assert_eq!(
        relay_peers(&node),
        vec![
            IpNet::host(ips[0]),
            IpNet::host(ips[1]),
            IpNet::parse_cidr("10.42.1.0/24").unwrap(),
            IpNet::parse_cidr("fd00::/64").unwrap(),
        ]
    );
    assert!(relay_peers(&Node::default()).is_empty());
}

#[test]
fn an_empty_stream_is_an_error() {
    assert_eq!(stream_outcome(7), Ok(7));
    assert_eq!(stream_outcome(0), Err("relay stream closed with zero bytes transferred"));
}

// ------------------------------------------------------------------ names and texts

#[test]
fn names_of_an_attempt() {
    assert_eq!(bkp_name("pvc-1", 1), "pvc-1-evac-a1");
    assert_eq!(rst_name("pvc-1", 12), "pvc-1-evacr-a12");
    assert_eq!(snapshot_name(3, 0xbeef), "zevac-a3-beef");
    assert_eq!(snapshot_name(1, 7), "zevac-a1-0007");
    assert_eq!(destination_handle(0), format!("zevac-{}", "0".repeat(32)));
    assert_eq!(destination_handle(u128::MAX), format!("zevac-{}", "f".repeat(32)));
    assert_ne!(destination_handle(1), destination_handle(16));
}

#[test]
fn label_values() {
    for ok in ["a", "A9", "a-b_c.d", "0"] {
        assert!(source_handle_fits_snapshot_label(ok), "{ok}");
    }
    for bad in ["", "-a", "a-", ".a", "a_", "\u{e4}", "a b"] {
        assert!(!source_handle_fits_snapshot_label(bad), "{bad}");
    }
}

#[test]
fn numbers_as_texts() {
    assert_eq!(to_decimal(0), "0");
    assert_eq!(to_decimal(u128::MAX), u128::MAX.to_string());
    assert_eq!(to_hex(0xabc, 5), "00abc");
    assert_eq!(to_hex(0xabcdef, 4), "cdef");
    for text in ["0", "+0", "007", "255", "256", "-1", "", "+", "1a", " 1", "99999999999999999999"] {
        assert_eq!(parse_u8(text), text.parse::<u8>().ok(), "{text}");
        assert_eq!(parse_u128(text), text.parse::<u128>().ok(), "{text}");
        assert_eq!(parse_i64(text), text.parse::<i64>().ok(), "{text}");
    }
    for text in ["-9223372036854775808", "-9223372036854775809", "9223372036854775807", "9223372036854775808"] {
        assert_eq!(parse_i64(text), text.parse::<i64>().ok(), "{text}");
    }
}

#[test]
fn texts_are_compared_and_trimmed() {
    for (a, b) in [("a", "b"), ("", "a"), ("a", "ab"), ("node-10", "node-2"), ("z", "\u{e4}")] {
        assert!(before(a, b) && !before(b, a) && !before(a, a));
        assert!(a < b);
    }
    for text in [" a ", "\t\n a b \u{3000}", "", "   ", "a"] {
        assert_eq!(trim(text), text.trim());
    }
    let parts: Vec<String> = ["x", "", "y"].iter().map(|s| s.to_string()).collect();
    assert_eq!(join(&parts, ", "), "x, , y");
    assert_eq!(join(&vec![], ", "), "");
}

#[test]
fn maps_hold_each_key_once() {
    let mut m = StringMap::new();
    m.insert("a".to_string(), "1".to_string());
    m.insert("b".to_string(), "2".to_string());
    m.insert("a".to_string(), "3".to_string());
    assert_eq!(m.get("a").map(|s| s.as_str()), Some("3"));
    assert_eq!(m.pairs().len(), 2);
    let copy = m.clone();
    assert!(copy.is_within(&m) && m.is_within(&copy));
    m.remove("a");
    m.remove("missing");
    assert!(!m.contains_key("a") && m.contains_key("b"));
    assert!(m.is_within(&copy) && !copy.is_within(&m));
    assert_eq!(StringMap::default().pairs().len(), 0);
}
