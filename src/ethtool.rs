//! Decoding of ethtool link-modes replies (generic netlink).

use vstd::prelude::*;
use vstd::slice::slice_subrange;
use crate::rtnetlink::body_attrs;
use crate::netlink::{
    Attr, AttrModel, ByteOrder, attrs_view, find_first, find_last, first_payload, h32_payload,
    last_payload, parse_attrs, parse_attrs_spec, payload_as_h32, payload_as_string, string_payload,
};

verus! {

pub const ETHTOOL_A_LINKMODES_HEADER: u16 = 1;
pub const ETHTOOL_A_LINKMODES_SPEED: u16 = 5;
pub const ETHTOOL_A_HEADER_DEV_NAME: u16 = 2;

/// Negotiated speed of a link, in Mbit/s; always positive.
pub struct LinkSpeed {
    pub name: String,
    pub speed: u32,
}

/// The device name in a header attribute: the first name attribute.
pub open spec fn header_dev_name(o: ByteOrder, header: Seq<u8>) -> Option<Seq<char>> {
    match parse_attrs_spec(o, header) {
        Some(h) => match first_payload(h, ETHTOOL_A_HEADER_DEV_NAME) {
            Some(p) => string_payload(p),
            None => None,
        },
        None => None,
    }
}

pub open spec fn reply_dev_name(o: ByteOrder, attrs: Seq<AttrModel>) -> Option<Seq<char>> {
    match last_payload(attrs, ETHTOOL_A_LINKMODES_HEADER) {
        Some(p) => header_dev_name(o, p),
        None => None,
    }
}

/// The speed attribute, a signed 32-bit value, when it is positive.
pub open spec fn reply_speed(o: ByteOrder, attrs: Seq<AttrModel>) -> Option<u32> {
    match last_payload(attrs, ETHTOOL_A_LINKMODES_SPEED) {
        Some(p) => match h32_payload(o, p) {
            Some(v) => if 0 < v < 0x8000_0000 { Some(v) } else { None },
            None => None,
        },
        None => None,
    }
}

fn parse_header_attrs(o: ByteOrder, header: &Vec<u8>) -> (r: Option<String>)
    ensures
        match r {
            Some(s) => header_dev_name(o, header@) == Some(s@),
            None => header_dev_name(o, header@) is None,
        },
{
    let h = match parse_attrs(o, header.as_slice()) {
        Some(h) => h,
        None => return None,
    };
    match find_first(&h, ETHTOOL_A_HEADER_DEV_NAME) {
        Some(a) => payload_as_string(&a.payload),
        None => None,
    }
}

/// Decodes a link-modes reply: a sample needs both a device name and a
/// positive speed; anything else is skipped.
pub fn parse_link_modes_get_response(o: ByteOrder, attrs: &Vec<Attr>) -> (r: Option<LinkSpeed>)
    ensures
        r is Some <==> (reply_dev_name(o, attrs_view(attrs@)) is Some && reply_speed(
            o,
            attrs_view(attrs@),
        ) is Some),
        r matches Some(l) ==> Some(l.name@) == reply_dev_name(o, attrs_view(attrs@)) && Some(l.speed)
            == reply_speed(o, attrs_view(attrs@)),
{
    let name = match find_last(attrs, ETHTOOL_A_LINKMODES_HEADER) {
        Some(a) => parse_header_attrs(o, &a.payload),
        None => None,
    };
    let speed = match find_last(attrs, ETHTOOL_A_LINKMODES_SPEED) {
        Some(a) => payload_as_h32(o, &a.payload),
        None => None,
    };
    match (name, speed) {
        (Some(name), Some(speed)) => if 0 < speed && speed < 0x8000_0000 {
            Some(LinkSpeed { name, speed })
        } else {
            None
        },
        _ => None,
    }
}

/// Length of the generic netlink header (command, version, reserved).
pub const GENLMSG_LEN: usize = 4;

/// Decodes a whole link-modes reply payload.
pub fn parse_link_modes_message(o: ByteOrder, p: &[u8]) -> (r: Option<LinkSpeed>)
    ensures
        r is Some <==> (body_attrs(o, p@, GENLMSG_LEN as int) matches Some(a) && reply_dev_name(o, a) is Some
            && reply_speed(o, a) is Some),
        r matches Some(l) ==> (body_attrs(o, p@, GENLMSG_LEN as int) matches Some(a) && Some(l.name@)
            == reply_dev_name(o, a) && Some(l.speed) == reply_speed(o, a)),
{
    if p.len() < GENLMSG_LEN {
        return None;
    }
    let attrs = match parse_attrs(o, slice_subrange(p, GENLMSG_LEN, p.len())) {
        Some(a) => a,
        None => return None,
    };
    parse_link_modes_get_response(o, &attrs)
}

/// Name of the generic netlink family of ethtool.
pub const ETHTOOL_GENL_NAME: &'static str = "ethtool";
pub const ETHTOOL_MSG_LINKMODES_GET: u8 = 4;
pub const ETHTOOL_GENL_VERSION: u8 = 1;

/// Payload of a link-modes dump request: the generic netlink header
/// alone.
pub fn link_modes_request() -> (r: Vec<u8>)
    ensures
        r@ == seq![ETHTOOL_MSG_LINKMODES_GET, ETHTOOL_GENL_VERSION, 0u8, 0u8],
{
    let r = vec![ETHTOOL_MSG_LINKMODES_GET, ETHTOOL_GENL_VERSION, 0u8, 0u8];
    r
}

} // verus!
