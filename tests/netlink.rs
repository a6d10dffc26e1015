use home_router_exporter::addr::{ipv4_to_string, ipv6_to_string, mac_to_string};
use home_router_exporter::ethtool::{
    link_modes_request, parse_link_modes_get_response, parse_link_modes_message,
};
use home_router_exporter::netlink::{parse_attrs, payload_as_string, Attr, ByteOrder};

const LE: ByteOrder = ByteOrder::Little;
use home_router_exporter::nftables::{
    getset_request, getsetelem_request, parse_set, parse_set_elem, parse_set_message, NftElemCursor,
    NftSet,
};
use home_router_exporter::rtnetlink::{
    link_dump_request, parse_get_link_response, parse_get_route_response, parse_link_message,
    parse_route_message, route_dump_request,
};

fn enc_attr(tag: u16, payload: &[u8]) -> Vec<u8> {
    let len = (4 + payload.len()) as u16;
    let mut v = Vec::new();
    v.extend_from_slice(&len.to_le_bytes());
    v.extend_from_slice(&tag.to_le_bytes());
    v.extend_from_slice(payload);
    while v.len() % 4 != 0 {
        v.push(0);
    }
    v
}

fn attr(tag: u16, payload: &[u8]) -> Attr {
    Attr { tag, payload: payload.to_vec() }
}

#[test]
fn attribute_buffer_round_trip() {
    let mut buf = enc_attr(3, b"eth0\0");
    buf.extend(enc_attr(0x8005, &[1, 2]));
    let attrs = parse_attrs(LE, &buf).unwrap();
    assert_eq!(attrs.len(), 2);
    assert_eq!(attrs[0].tag, 3);
    assert_eq!(attrs[0].payload, b"eth0\0".to_vec());
    assert_eq!(attrs[1].tag, 5);
    assert_eq!(attrs[1].payload, vec![1, 2]);
    assert_eq!(payload_as_string(&attrs[0].payload).unwrap(), "eth0");
}

#[test]
fn malformed_attribute_buffer() {
    assert!(parse_attrs(LE, &[2, 0, 1, 0]).is_none());
    assert!(parse_attrs(LE, &[40, 0, 1, 0, 0, 0]).is_none());
    assert!(parse_attrs(LE, &[8, 0]).is_none());
    assert_eq!(parse_attrs(LE, &[]).unwrap().len(), 0);
}

#[test]
fn string_payload_requires_utf8() {
    assert!(payload_as_string(&vec![0xff, 0xfe, 0]).is_none());
    assert!(payload_as_string(&vec![]).is_none());
    assert_eq!(payload_as_string(&vec![b'l', b'o', 0]).unwrap(), "lo");
}

#[test]
fn link_reply_decoded() {
    let mut stats = vec![0u8; 40];
    stats[16..24].copy_from_slice(&1000u64.to_le_bytes());
    stats[24..32].copy_from_slice(&2000u64.to_le_bytes());
    let attrs = vec![attr(3, b"eth0\0"), attr(16, &[6]), attr(23, &stats)];
    let l = parse_get_link_response(LE, 0x1043, &attrs).unwrap();
    assert_eq!(l.name, "eth0");
    assert!(l.admin_up);
    assert_eq!(l.operstate, 6);
    assert_eq!(l.rx, 1000);
    assert_eq!(l.tx, 2000);

    let short = vec![attr(3, b"wlan0\0"), attr(23, &[1u8; 31])];
    let l = parse_get_link_response(LE, 0, &short).unwrap();
    assert!(!l.admin_up);
    assert_eq!((l.operstate, l.rx, l.tx), (0, 0, 0));

    assert!(parse_get_link_response(LE, 1, &vec![attr(16, &[6])]).is_none());
}

#[test]
fn default_route_ipv4() {
    let attrs = vec![attr(5, &[192, 0, 2, 1]), attr(4, &2u32.to_le_bytes())];
    let g = parse_get_route_response(LE, 0, &attrs).unwrap();
    assert_eq!(g.ip_text(), "192.0.2.1");
    assert_eq!(g.scope_id, 0);
    assert!(parse_get_route_response(LE, 24, &attrs).is_none());
    assert!(parse_get_route_response(LE, 1, &attrs).is_none());
    assert!(parse_get_route_response(LE, 0, &vec![attr(4, &[1, 0, 0, 0])]).is_none());
    assert!(parse_get_route_response(LE, 0, &vec![attr(5, &[1, 2, 3])]).is_none());
}

#[test]
fn default_route_link_local_ipv6_is_scoped() {
    let mut gw = [0u8; 16];
    gw[0] = 0xfe;
    gw[1] = 0x80;
    gw[15] = 1;
    let attrs = vec![attr(5, &gw), attr(4, &3u32.to_le_bytes())];
    let g = parse_get_route_response(LE, 0, &attrs).unwrap();
    assert_eq!(g.scope_id, 3);
    assert_eq!(g.ip_text(), "fe80::1");
    let mut global = gw;
    global[0] = 0x20;
    global[1] = 0x01;
    let g = parse_get_route_response(LE, 0, &vec![attr(5, &global), attr(4, &3u32.to_le_bytes())]).unwrap();
    assert_eq!(g.scope_id, 0);
}

#[test]
fn address_text() {
    assert_eq!(ipv4_to_string(&vec![10, 0, 255, 1]), "10.0.255.1");
    assert_eq!(mac_to_string(&vec![0, 0x1b, 0xa, 0xff, 0x10, 0x2]), "00:1b:0a:ff:10:02");
    let v6 = |g: [u16; 8]| -> String {
        let mut b = Vec::new();
        for x in g {
            b.extend_from_slice(&x.to_be_bytes());
        }
        ipv6_to_string(&b)
    };
    assert_eq!(v6([0x2001, 0xdb8, 0, 0, 0, 0, 0, 1]), "2001:db8::1");
    assert_eq!(v6([0; 8]), "::");
    assert_eq!(v6([0, 0, 0, 0, 0, 0, 0, 1]), "::1");
    assert_eq!(v6([0xfe80, 0, 0, 0, 0, 0, 0, 1]), "fe80::1");
    assert_eq!(v6([1, 0, 0, 1, 0, 0, 0, 1]), "1:0:0:1::1");
    assert_eq!(v6([1, 0, 0, 1, 1, 0, 0, 1]), "1::1:1:0:0:1");
    assert_eq!(v6([0, 0, 0, 0, 0, 0xffff, 0xc000, 0x0201]), "::ffff:192.0.2.1");
    assert_eq!(v6([1, 2, 3, 4, 5, 6, 7, 8]), "1:2:3:4:5:6:7:8");
    assert_eq!(v6([1, 0, 2, 3, 4, 5, 6, 7]), "1:0:2:3:4:5:6:7");
    assert_eq!(v6([0, 2, 3, 4, 5, 6, 7, 8]), "0:2:3:4:5:6:7:8");
    assert_eq!(v6([0xabcd, 0xef01, 0, 0, 0xa, 0, 0, 0]), "abcd:ef01:0:0:a::");
}

#[test]
fn ethtool_speed() {
    let header = enc_attr(0x8002, b"eth1\0");
    let ok = vec![attr(1, &header), attr(5, &1000i32.to_le_bytes())];
    let s = parse_link_modes_get_response(LE, &ok).unwrap();
    assert_eq!(s.name, "eth1");
    assert_eq!(s.speed, 1000);
    let unknown = vec![attr(1, &header), attr(5, &(-1i32).to_le_bytes())];
    assert!(parse_link_modes_get_response(LE, &unknown).is_none());
    let zero = vec![attr(1, &header), attr(5, &0i32.to_le_bytes())];
    assert!(parse_link_modes_get_response(LE, &zero).is_none());
    let nameless = vec![attr(5, &1000i32.to_le_bytes())];
    assert!(parse_link_modes_get_response(LE, &nameless).is_none());
}

fn set_attrs(flags: u32, key_type: u32) -> Vec<Attr> {
    vec![
        attr(1, b"filter\0"),
        attr(2, b"clients\0"),
        attr(3, &flags.to_be_bytes()),
        attr(4, &key_type.to_be_bytes()),
    ]
}

#[test]
fn nft_set_filter() {
    let s = parse_set(2, &set_attrs(0, 7)).unwrap();
    assert_eq!((s.family, s.table.as_str(), s.name.as_str()), (2, "filter", "clients"));
    assert!(parse_set(2, &set_attrs(0, 8)).is_some());
    assert!(parse_set(2, &set_attrs(2, 9)).is_some());
    for t in [7, 8, 9, 0, 10] {
        assert!(parse_set(2, &set_attrs(1, t)).is_none());
        assert!(parse_set(2, &set_attrs(3, t)).is_none());
    }
    for t in [0, 6, 10, 0x0700_0000] {
        assert!(parse_set(2, &set_attrs(0, t)).is_none());
    }
    let no_flags = vec![attr(1, b"t\0"), attr(2, b"s\0"), attr(4, &7u32.to_be_bytes())];
    assert!(parse_set(2, &no_flags).is_none());
}

fn elem(key: &[u8], counter: Option<u64>) -> Vec<u8> {
    let mut e = enc_attr(0x8001, &enc_attr(1, key));
    if let Some(bytes) = counter {
        let mut data = enc_attr(1, &bytes.to_be_bytes());
        data.extend(enc_attr(2, &9u64.to_be_bytes()));
        let mut expr = enc_attr(1, b"counter\0");
        expr.extend(enc_attr(0x8002, &data));
        e.extend(enc_attr(0x8007, &expr));
    }
    enc_attr(0x8001, &e)
}

#[test]
fn nft_element_counter() {
    let e = elem(&[10, 0, 0, 1], Some(500));
    let inner = parse_attrs(LE, &e).unwrap();
    let c = parse_set_elem(LE, &inner[0].payload).unwrap();
    assert_eq!(c.addr, "10.0.0.1");
    assert_eq!(c.bytes, 500);
    let e = elem(&[2, 0x42, 0xac, 0x11, 0, 2], Some(1));
    let inner = parse_attrs(LE, &e).unwrap();
    assert_eq!(parse_set_elem(LE, &inner[0].payload).unwrap().addr, "02:42:ac:11:00:02");
    let e = elem(&[10, 0, 0, 1], None);
    let inner = parse_attrs(LE, &e).unwrap();
    assert!(parse_set_elem(LE, &inner[0].payload).is_none());
    let e = elem(&[1, 2, 3], Some(1));
    let inner = parse_attrs(LE, &e).unwrap();
    assert!(parse_set_elem(LE, &inner[0].payload).is_none());
}

#[test]
fn nft_cursor_walks_every_element_once() {
    let mut list1 = elem(&[10, 0, 0, 1], Some(100));
    list1.extend(elem(&[10, 0, 0, 2], None));
    list1.extend(elem(&[10, 0, 0, 3], Some(300)));
    let list2 = elem(&[10, 0, 0, 4], Some(400));
    let attrs = vec![attr(1, b"filter\0"), attr(3, &list1), attr(2, b"set\0"), attr(3, &list2)];
    let mut cur = NftElemCursor::new(LE, attrs);
    let mut seen = Vec::new();
    while let Some(c) = cur.next_counter() {
        seen.push((c.addr, c.bytes));
    }
    assert_eq!(
        seen,
        vec![
            ("10.0.0.1".to_string(), 100),
            ("10.0.0.3".to_string(), 300),
            ("10.0.0.4".to_string(), 400)
        ]
    );
    assert!(cur.next_counter().is_none());
}

#[test]
fn whole_messages_and_requests() {
    let mut link = vec![0u8; 16];
    link[8] = 1;
    link.extend(enc_attr(3, b"br0\0"));
    let l = parse_link_message(LE, &link).unwrap();
    assert_eq!(l.name, "br0");
    assert!(l.admin_up);
    assert!(parse_link_message(LE, &link[..10]).is_none());

    let mut route = vec![2u8, 0, 0, 0, 254, 0, 0, 1, 0, 0, 0, 0];
    route.extend(enc_attr(5, &[192, 0, 2, 1]));
    assert_eq!(parse_route_message(LE, &route).unwrap().ip_text(), "192.0.2.1");
    route[1] = 8;
    assert!(parse_route_message(LE, &route).is_none());

    let mut modes = vec![4u8, 1, 0, 0];
    modes.extend(enc_attr(0x8001, &enc_attr(2, b"eth0\0")));
    modes.extend(enc_attr(5, &2500i32.to_le_bytes()));
    let s = parse_link_modes_message(LE, &modes).unwrap();
    assert_eq!((s.name.as_str(), s.speed), ("eth0", 2500));

    let mut set = vec![2u8, 0, 0, 0];
    set.extend(enc_attr(1, b"filter\0"));
    set.extend(enc_attr(2, b"clients\0"));
    set.extend(enc_attr(3, &0u32.to_be_bytes()));
    set.extend(enc_attr(4, &9u32.to_be_bytes()));
    let s = parse_set_message(LE, &set).unwrap();
    assert_eq!(s.family, 2);

    assert_eq!(link_dump_request(), vec![0u8; 16]);
    assert_eq!(route_dump_request(), vec![0, 0, 0, 0, 254, 0, 0, 0, 0, 0, 0, 0]);
    assert_eq!(link_modes_request(), vec![4, 1, 0, 0]);
    assert_eq!(getset_request(), vec![0, 0, 0, 0]);
    let req = getsetelem_request(LE, &NftSet { family: 2, table: "filter".to_string(), name: "ab".to_string() });
    let mut want = vec![2u8, 0, 0, 0];
    want.extend(enc_attr(1, b"filter\0"));
    want.extend(enc_attr(2, b"ab\0"));
    assert_eq!(req, want);
    let attrs = parse_attrs(LE, &req[4..]).unwrap();
    assert_eq!(payload_as_string(&attrs[0].payload).unwrap(), "filter");
}

#[test]
fn big_endian_host() {
    let be = ByteOrder::Big;
    let mut buf = Vec::new();
    buf.extend_from_slice(&9u16.to_be_bytes());
    buf.extend_from_slice(&3u16.to_be_bytes());
    buf.extend_from_slice(b"eth0\0");
    buf.extend_from_slice(&[0, 0, 0]);
    let attrs = parse_attrs(be, &buf).unwrap();
    assert_eq!((attrs.len(), attrs[0].tag), (1, 3));
    let mut stats = vec![0u8; 32];
    stats[16..24].copy_from_slice(&77u64.to_be_bytes());
    let link = vec![attr(3, b"eth0\0"), attr(23, &stats)];
    assert_eq!(parse_get_link_response(be, 0, &link).unwrap().rx, 77);
    assert_eq!(parse_get_link_response(LE, 0, &link).unwrap().rx, 77u64.swap_bytes());
    let req = getsetelem_request(be, &NftSet { family: 2, table: "t".to_string(), name: "s".to_string() });
    assert_eq!(&req[4..8], &[0, 6, 0, 1]);
}
