//! Decoding of route-netlink replies: link state and counters, and
//! default-route gateways.

use vstd::prelude::*;
use crate::addr::{ipv4_text, ipv4_to_string, ipv6_text, ipv6_to_string};
use vstd::slice::{slice_subrange, slice_to_vec};
use crate::netlink::{
    Attr, AttrModel, ByteOrder, attrs_view, find_last, h32, h32_payload, h64, last_payload,
    parse_attrs, parse_attrs_spec, payload_as_h32, payload_as_string, payload_as_u8, read_h32,
    read_h64, string_payload, u8_payload,
};

verus! {

pub const IFF_UP: u32 = 1;
pub const IFLA_IFNAME: u16 = 3;
pub const IFLA_OPERSTATE: u16 = 16;
pub const IFLA_STATS64: u16 = 23;
pub const RTA_OIF: u16 = 4;
pub const RTA_GATEWAY: u16 = 5;

/// State and counters of one network interface.
pub struct Link {
    pub name: String,
    pub admin_up: bool,
    pub operstate: u8,
    pub rx: u64,
    pub tx: u64,
}

/// The device name of a link reply, when present and readable.
pub open spec fn link_name(attrs: Seq<AttrModel>) -> Option<Seq<char>> {
    match last_payload(attrs, IFLA_IFNAME) {
        Some(p) => string_payload(p),
        None => None,
    }
}

pub open spec fn link_operstate(attrs: Seq<AttrModel>) -> u8 {
    match last_payload(attrs, IFLA_OPERSTATE) {
        Some(p) => match u8_payload(p) {
            Some(v) => v,
            None => 0,
        },
        None => 0,
    }
}

/// A 64-bit counter at byte `off` of the link statistics block, which is
/// read only when it holds at least 32 bytes; 0 otherwise.
pub open spec fn link_counter(o: ByteOrder, attrs: Seq<AttrModel>, off: int) -> u64 {
    match last_payload(attrs, IFLA_STATS64) {
        Some(p) => if p.len() >= 32 { h64(o, p, off) as u64 } else { 0 },
        None => 0,
    }
}

/// Decodes a link reply from its interface flags and attributes, whose
/// integers are in host order `o`. A reply
/// without a readable device name is dropped.
pub fn parse_get_link_response(o: ByteOrder, flags: u32, attrs: &Vec<Attr>) -> (r: Option<Link>)
    ensures
        r is Some <==> link_name(attrs_view(attrs@)) is Some,
        r matches Some(l) ==> {
            &&& Some(l.name@) == link_name(attrs_view(attrs@))
            &&& l.admin_up == (flags & IFF_UP != 0)
            &&& l.operstate == link_operstate(attrs_view(attrs@))
            &&& l.rx == link_counter(o, attrs_view(attrs@), 16)
            &&& l.tx == link_counter(o, attrs_view(attrs@), 24)
        },
{
    let admin_up = flags & IFF_UP != 0;
    let name = match find_last(attrs, IFLA_IFNAME) {
        Some(a) => payload_as_string(&a.payload),
        None => None,
    };
    let operstate = match find_last(attrs, IFLA_OPERSTATE) {
        Some(a) => match payload_as_u8(&a.payload) {
            Some(v) => v,
            None => 0,
        },
        None => 0,
    };
    let mut rx: u64 = 0;
    let mut tx: u64 = 0;
    match find_last(attrs, IFLA_STATS64) {
        Some(a) => {
            if a.payload.len() >= 32 {
                rx = read_h64(o, a.payload.as_slice(), 16);
                tx = read_h64(o, a.payload.as_slice(), 24);
            }
        },
        None => {},
    }
    match name {
        Some(name) => Some(Link { name, admin_up, operstate, rx, tx }),
        None => None,
    }
}

/// Gateway of a default route: four or sixteen address bytes, and for a
/// link-local IPv6 gateway the index of the outgoing interface (0 for
/// every other gateway).
pub struct Gateway {
    pub addr: Vec<u8>,
    pub scope_id: u32,
}

pub open spec fn link_local_v6(b: Seq<u8>) -> bool {
    b.len() == 16 && b[0] == 0xfe && 0x80 <= b[1] < 0xc0
}

pub open spec fn route_scope(o: ByteOrder, attrs: Seq<AttrModel>, addr: Seq<u8>) -> u32 {
    if link_local_v6(addr) {
        match last_payload(attrs, RTA_OIF) {
            Some(p) => match h32_payload(o, p) {
                Some(v) => v,
                None => 0,
            },
            None => 0,
        }
    } else {
        0
    }
}

/// The gateway a route reply names, if it is a default route (destination
/// prefix length 0) with a gateway of four or sixteen bytes.
pub open spec fn default_gateway(dst_len: u8, attrs: Seq<AttrModel>) -> Option<Seq<u8>> {
    if dst_len != 0 {
        None
    } else {
        match last_payload(attrs, RTA_GATEWAY) {
            Some(p) => if p.len() == 4 || p.len() == 16 { Some(p) } else { None },
            None => None,
        }
    }
}

/// Decodes a route reply; `None` unless it is a default route with a
/// gateway.
pub fn parse_get_route_response(o: ByteOrder, dst_len: u8, attrs: &Vec<Attr>) -> (r: Option<Gateway>)
    ensures
        r is Some <==> default_gateway(dst_len, attrs_view(attrs@)) is Some,
        r matches Some(g) ==> {
            &&& default_gateway(dst_len, attrs_view(attrs@)) == Some(g.addr@)
            &&& g.scope_id == route_scope(o, attrs_view(attrs@), g.addr@)
        },
{
    if dst_len != 0 {
        return None;
    }
    let gw = match find_last(attrs, RTA_GATEWAY) {
        Some(a) => a,
        None => return None,
    };
    let n = gw.payload.len();
    if n != 4 && n != 16 {
        return None;
    }
    let addr = slice_to_vec(gw.payload.as_slice());
    let mut scope_id: u32 = 0;
    if n == 16 && addr[0] == 0xfe && 0x80 <= addr[1] && addr[1] < 0xc0 {
        scope_id = match find_last(attrs, RTA_OIF) {
            Some(a) => match payload_as_h32(o, &a.payload) {
                Some(v) => v,
                None => 0,
            },
            None => 0,
        };
    }
    Some(Gateway { addr, scope_id })
}

pub open spec fn gateway_text(addr: Seq<u8>) -> Seq<char> {
    if addr.len() == 4 {
        ipv4_text(addr)
    } else {
        ipv6_text(addr)
    }
}

impl Gateway {
    /// The gateway address as text (without its scope).
    pub fn ip_text(&self) -> (r: String)
        requires
            self.addr@.len() == 4 || self.addr@.len() == 16,
        ensures
            r@ == gateway_text(self.addr@),
    {
        if self.addr.len() == 4 {
            ipv4_to_string(&self.addr)
        } else {
            ipv6_to_string(&self.addr)
        }
    }
}

/// A route reply with a nonzero destination prefix length is never a
/// default route, whatever its attributes.
pub proof fn lemma_nonzero_prefix_not_default(dst_len: u8, attrs: Seq<AttrModel>)
    requires
        dst_len != 0,
    ensures
        default_gateway(dst_len, attrs) is None,
{
}

/// Length of the fixed interface header (`ifinfomsg`) of a link reply;
/// its interface flags are the 32-bit field at byte 8.
pub const IFINFOMSG_LEN: usize = 16;

/// Length of the fixed route header (`rtmsg`) of a route reply; its
/// destination prefix length is byte 1.
pub const RTMSG_LEN: usize = 12;

/// The attributes after a fixed header of `hdr` bytes.
pub open spec fn body_attrs(o: ByteOrder, p: Seq<u8>, hdr: int) -> Option<Seq<AttrModel>> {
    if p.len() < hdr {
        None
    } else {
        parse_attrs_spec(o, p.subrange(hdr, p.len() as int))
    }
}

/// Decodes a whole link reply payload: the interface header, then its
/// attributes.
pub fn parse_link_message(o: ByteOrder, p: &[u8]) -> (r: Option<Link>)
    ensures
        r is Some <==> (body_attrs(o, p@, IFINFOMSG_LEN as int) matches Some(a) && link_name(a) is Some),
        r matches Some(l) ==> (body_attrs(o, p@, IFINFOMSG_LEN as int) matches Some(a) && {
            &&& Some(l.name@) == link_name(a)
            &&& l.admin_up == (h32(o, p@, 8) as u32 & IFF_UP != 0)
            &&& l.operstate == link_operstate(a)
            &&& l.rx == link_counter(o, a, 16)
            &&& l.tx == link_counter(o, a, 24)
        }),
{
    if p.len() < IFINFOMSG_LEN {
        return None;
    }
    let flags = read_h32(o, p, 8);
    let attrs = match parse_attrs(o, slice_subrange(p, IFINFOMSG_LEN, p.len())) {
        Some(a) => a,
        None => return None,
    };
    parse_get_link_response(o, flags, &attrs)
}

/// Decodes a whole route reply payload: the route header, then its
/// attributes.
pub fn parse_route_message(o: ByteOrder, p: &[u8]) -> (r: Option<Gateway>)
    ensures
        r is Some <==> (body_attrs(o, p@, RTMSG_LEN as int) matches Some(a) && default_gateway(p@[1], a) is Some),
        r matches Some(g) ==> (body_attrs(o, p@, RTMSG_LEN as int) matches Some(a) && {
            &&& default_gateway(p@[1], a) == Some(g.addr@)
            &&& g.scope_id == route_scope(o, a, g.addr@)
        }),
{
    if p.len() < RTMSG_LEN {
        return None;
    }
    let attrs = match parse_attrs(o, slice_subrange(p, RTMSG_LEN, p.len())) {
        Some(a) => a,
        None => return None,
    };
    parse_get_route_response(o, p[1], &attrs)
}

/// Message type of a link dump request.
pub const RTM_GETLINK: u16 = 18;
/// Message type of a route dump request.
pub const RTM_GETROUTE: u16 = 26;
/// The main routing table.
pub const RT_TABLE_MAIN: u8 = 254;

/// Payload of a link dump request: an interface header for every family,
/// type and index, all zero.
pub fn link_dump_request() -> (r: Vec<u8>)
    ensures
        r@ == Seq::new(IFINFOMSG_LEN as nat, |i: int| 0u8),
{
    let mut r: Vec<u8> = Vec::new();
    let mut i: usize = 0;
    while i < IFINFOMSG_LEN
        invariant
            i <= IFINFOMSG_LEN,
            r@ == Seq::new(i as nat, |k: int| 0u8),
        decreases IFINFOMSG_LEN - i,
    {
        r.push(0);
        proof {
            assert(Seq::new((i + 1) as nat, |k: int| 0u8) =~= Seq::new(i as nat, |k: int| 0u8).push(0u8));
        }
        i = i + 1;
    }
    r
}

/// Payload of a route dump request: a route header for every family in
/// the main table, universe scope.
pub fn route_dump_request() -> (r: Vec<u8>)
    ensures
        r@ == seq![0u8, 0, 0, 0, RT_TABLE_MAIN, 0, 0, 0, 0, 0, 0, 0],
{
    let r = vec![0u8, 0, 0, 0, RT_TABLE_MAIN, 0, 0, 0, 0, 0, 0, 0];
    r
}

} // verus!
