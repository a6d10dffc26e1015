//! Decoding of nftables replies (netfilter netlink): named address-keyed
//! sets, and the byte counters of their elements.

use vstd::prelude::*;
use vstd::string::*;
use vstd::slice::slice_subrange;
use vstd::utf8::encode_utf8;
use crate::rtnetlink::body_attrs;
use crate::addr::{
    ipv4_text, ipv4_to_string, ipv6_text, ipv6_to_string, mac_text, mac_to_string,
};
use crate::netlink::{
    Attr, AttrModel, ByteOrder, attr_bytes, push_attr, attrs_view, be32_payload, be64_payload, find_first, find_last, first_payload,
    last_payload, parse_attrs, parse_attrs_spec, payload_as_be32, payload_as_be64,
    payload_as_string, string_payload,
};

verus! {

pub const NFTA_SET_TABLE: u16 = 1;
pub const NFTA_SET_NAME: u16 = 2;
pub const NFTA_SET_FLAGS: u16 = 3;
pub const NFTA_SET_KEY_TYPE: u16 = 4;
pub const NFT_SET_ANONYMOUS: u32 = 1;
/// Key types of userspace nftables: IPv4 address, IPv6 address, Ethernet
/// address.
pub const TYPE_IPADDR: u32 = 7;
pub const TYPE_IP6ADDR: u32 = 8;
pub const TYPE_ETHERADDR: u32 = 9;

pub const NFTA_SET_ELEM_LIST_ELEMENTS: u16 = 3;
pub const NFTA_SET_ELEM_KEY: u16 = 1;
pub const NFTA_SET_ELEM_EXPR: u16 = 7;
pub const NFTA_DATA_VALUE: u16 = 1;
pub const NFTA_EXPR_NAME: u16 = 1;
pub const NFTA_EXPR_DATA: u16 = 2;
pub const NFTA_COUNTER_BYTES: u16 = 1;
pub const NFTA_COUNTER_PACKETS: u16 = 2;

/// A named set whose elements are addresses.
pub struct NftSet {
    pub family: u8,
    pub table: String,
    pub name: String,
}

pub open spec fn str_attr(attrs: Seq<AttrModel>, tag: u16) -> Option<Seq<char>> {
    match last_payload(attrs, tag) {
        Some(p) => string_payload(p),
        None => None,
    }
}

pub open spec fn be32_attr(attrs: Seq<AttrModel>, tag: u16) -> Option<u32> {
    match last_payload(attrs, tag) {
        Some(p) => be32_payload(p),
        None => None,
    }
}

pub open spec fn be64_attr(attrs: Seq<AttrModel>, tag: u16) -> Option<u64> {
    match last_payload(attrs, tag) {
        Some(p) => be64_payload(p),
        None => None,
    }
}

pub open spec fn address_key_type(t: u32) -> bool {
    t == TYPE_IPADDR || t == TYPE_IP6ADDR || t == TYPE_ETHERADDR
}

/// Whether a set reply is exported: its flags are known and without the
/// anonymous bit, its key type is an address type, and it has a table
/// and a name.
pub open spec fn set_exported(attrs: Seq<AttrModel>) -> bool {
    &&& be32_attr(attrs, NFTA_SET_FLAGS) matches Some(f) && f & NFT_SET_ANONYMOUS == 0
    &&& be32_attr(attrs, NFTA_SET_KEY_TYPE) matches Some(t) && address_key_type(t)
    &&& str_attr(attrs, NFTA_SET_TABLE) is Some
    &&& str_attr(attrs, NFTA_SET_NAME) is Some
}

/// Decodes a set reply; only named sets keyed by addresses are kept.
pub fn parse_set(family: u8, attrs: &Vec<Attr>) -> (r: Option<NftSet>)
    ensures
        r is Some <==> set_exported(attrs_view(attrs@)),
        r matches Some(s) ==> {
            &&& s.family == family
            &&& Some(s.table@) == str_attr(attrs_view(attrs@), NFTA_SET_TABLE)
            &&& Some(s.name@) == str_attr(attrs_view(attrs@), NFTA_SET_NAME)
        },
{
    let table = match find_last(attrs, NFTA_SET_TABLE) {
        Some(a) => payload_as_string(&a.payload),
        None => None,
    };
    let name = match find_last(attrs, NFTA_SET_NAME) {
        Some(a) => payload_as_string(&a.payload),
        None => None,
    };
    let flags = match find_last(attrs, NFTA_SET_FLAGS) {
        Some(a) => payload_as_be32(&a.payload),
        None => None,
    };
    let key_type = match find_last(attrs, NFTA_SET_KEY_TYPE) {
        Some(a) => payload_as_be32(&a.payload),
        None => None,
    };
    match flags {
        Some(f) => if f & NFT_SET_ANONYMOUS != 0 {
            return None;
        },
        None => return None,
    }
    match key_type {
        Some(t) => if t != TYPE_IPADDR && t != TYPE_IP6ADDR && t != TYPE_ETHERADDR {
            return None;
        },
        None => return None,
    }
    match (table, name) {
        (Some(table), Some(name)) => Some(NftSet { family, table, name }),
        _ => None,
    }
}

/// Byte and packet counts of a counter expression; both must be present.
pub open spec fn counter_of(data: Seq<AttrModel>) -> Option<(u64, u64)> {
    match (be64_attr(data, NFTA_COUNTER_BYTES), be64_attr(data, NFTA_COUNTER_PACKETS)) {
        (Some(b), Some(p)) => Some((b, p)),
        _ => None,
    }
}

/// The counts of an expression attribute, if it is a counter.
pub open spec fn expr_counter(o: ByteOrder, expr: Seq<u8>) -> Option<(u64, u64)> {
    match parse_attrs_spec(o, expr) {
        Some(e) => match (str_attr(e, NFTA_EXPR_NAME), last_payload(e, NFTA_EXPR_DATA)) {
            (Some(name), Some(d)) => if name == "counter"@ {
                match parse_attrs_spec(o, d) {
                    Some(data) => counter_of(data),
                    None => None,
                }
            } else {
                None
            },
            _ => None,
        },
        None => None,
    }
}

/// Text of an element key: its first value attribute, read by length as
/// an IPv4 address, a MAC address or an IPv6 address.
pub open spec fn key_text(o: ByteOrder, key: Seq<u8>) -> Option<Seq<char>> {
    match parse_attrs_spec(o, key) {
        Some(k) => match first_payload(k, NFTA_DATA_VALUE) {
            Some(v) => if v.len() == 4 {
                Some(ipv4_text(v))
            } else if v.len() == 6 {
                Some(mac_text(v))
            } else if v.len() == 16 {
                Some(ipv6_text(v))
            } else {
                None
            },
            None => None,
        },
        None => None,
    }
}

pub ghost struct CounterModel {
    pub addr: Seq<char>,
    pub bytes: u64,
}

/// Byte counter of one set element.
pub struct NftSetCounter {
    pub addr: String,
    pub bytes: u64,
}

impl View for NftSetCounter {
    type V = CounterModel;

    open spec fn view(&self) -> CounterModel {
        CounterModel { addr: self.addr@, bytes: self.bytes }
    }
}

/// The counter of an element attribute; elements without a readable key
/// or without a counter expression have none.
pub open spec fn elem_counter(o: ByteOrder, elem: Seq<u8>) -> Option<CounterModel> {
    match parse_attrs_spec(o, elem) {
        Some(e) => match (last_payload(e, NFTA_SET_ELEM_KEY), last_payload(e, NFTA_SET_ELEM_EXPR)) {
            (Some(k), Some(x)) => match (key_text(o, k), expr_counter(o, x)) {
                (Some(addr), Some((bytes, _))) => Some(CounterModel { addr, bytes }),
                _ => None,
            },
            _ => None,
        },
        None => None,
    }
}

fn parse_set_elem_expr_counter(o: ByteOrder, data: &Vec<u8>) -> (r: Option<(u64, u64)>)
    ensures
        r == match parse_attrs_spec(o, data@) {
            Some(d) => counter_of(d),
            None => None,
        },
{
    let d = match parse_attrs(o, data.as_slice()) {
        Some(d) => d,
        None => return None,
    };
    let bytes = match find_last(&d, NFTA_COUNTER_BYTES) {
        Some(a) => payload_as_be64(&a.payload),
        None => None,
    };
    let packets = match find_last(&d, NFTA_COUNTER_PACKETS) {
        Some(a) => payload_as_be64(&a.payload),
        None => None,
    };
    match (bytes, packets) {
        (Some(b), Some(p)) => Some((b, p)),
        _ => None,
    }
}

fn parse_set_elem_expr(o: ByteOrder, expr: &Vec<u8>) -> (r: Option<(u64, u64)>)
    ensures
        r == expr_counter(o, expr@),
{
    let e = match parse_attrs(o, expr.as_slice()) {
        Some(e) => e,
        None => return None,
    };
    let name = match find_last(&e, NFTA_EXPR_NAME) {
        Some(a) => payload_as_string(&a.payload),
        None => None,
    };
    let data = find_last(&e, NFTA_EXPR_DATA);
    match (name, data) {
        (Some(name), Some(data)) => {
            let counter = String::from_str("counter");
            proof {
                reveal_strlit("counter");
            }
            if name == counter {
                parse_set_elem_expr_counter(o, &data.payload)
            } else {
                None
            }
        },
        _ => None,
    }
}

fn parse_set_elem_key(o: ByteOrder, key: &Vec<u8>) -> (r: Option<String>)
    ensures
        match r {
            Some(s) => key_text(o, key@) == Some(s@),
            None => key_text(o, key@) is None,
        },
{
    let k = match parse_attrs(o, key.as_slice()) {
        Some(k) => k,
        None => return None,
    };
    match find_first(&k, NFTA_DATA_VALUE) {
        Some(a) => {
            let n = a.payload.len();
            if n == 4 {
                Some(ipv4_to_string(&a.payload))
            } else if n == 6 {
                Some(mac_to_string(&a.payload))
            } else if n == 16 {
                Some(ipv6_to_string(&a.payload))
            } else {
                None
            }
        },
        None => None,
    }
}

/// Decodes one set element into its counter.
pub fn parse_set_elem(o: ByteOrder, elem: &Vec<u8>) -> (r: Option<NftSetCounter>)
    ensures
        match r {
            Some(c) => elem_counter(o, elem@) == Some(c@),
            None => elem_counter(o, elem@) is None,
        },
{
    let e = match parse_attrs(o, elem.as_slice()) {
        Some(e) => e,
        None => return None,
    };
    let addr = match find_last(&e, NFTA_SET_ELEM_KEY) {
        Some(a) => parse_set_elem_key(o, &a.payload),
        None => None,
    };
    let counter = match find_last(&e, NFTA_SET_ELEM_EXPR) {
        Some(a) => parse_set_elem_expr(o, &a.payload),
        None => None,
    };
    match (addr, counter) {
        (Some(addr), Some((bytes, _))) => Some(NftSetCounter { addr, bytes }),
        _ => None,
    }
}

/// Counters of the elements of a list from index `from` on, in order.
pub open spec fn list_counters(o: ByteOrder, list: Seq<AttrModel>, from: int) -> Seq<CounterModel>
    decreases list.len() - from,
{
    if from < 0 || from >= list.len() {
        Seq::empty()
    } else {
        match elem_counter(o, list[from].payload) {
            Some(c) => seq![c] + list_counters(o, list, from + 1),
            None => list_counters(o, list, from + 1),
        }
    }
}

/// Counters of a set-element reply from attribute `a`, element `e` on.
pub open spec fn msg_counters(o: ByteOrder, attrs: Seq<AttrModel>, a: int, e: int) -> Seq<CounterModel>
    decreases attrs.len() - a,
{
    if a < 0 || a >= attrs.len() {
        Seq::empty()
    } else {
        let here = if attrs[a].tag == NFTA_SET_ELEM_LIST_ELEMENTS {
            match parse_attrs_spec(o, attrs[a].payload) {
                Some(list) => list_counters(o, list, e),
                None => Seq::empty(),
            }
        } else {
            Seq::empty()
        };
        here + msg_counters(o, attrs, a + 1, 0)
    }
}

/// Finds the first element at or after `from` that has a counter.
fn parse_set_elem_list(o: ByteOrder, list: &Vec<Attr>, from: usize) -> (r: Option<(usize, NftSetCounter)>)
    ensures
        match r {
            Some((idx, c)) => {
                &&& from <= idx < list@.len()
                &&& elem_counter(o, attrs_view(list@)[idx as int].payload) == Some(c@)
                &&& forall|j: int| from <= j < idx ==> elem_counter(o, #[trigger] attrs_view(list@)[j].payload,
                ) is None
                &&& list_counters(o, attrs_view(list@), from as int) == seq![c@] + list_counters(o, attrs_view(list@),
                    idx + 1,
                )
            },
            None => {
                &&& list_counters(o, attrs_view(list@), from as int) == Seq::<CounterModel>::empty()
                &&& forall|j: int| from <= j < list@.len() ==> elem_counter(o, #[trigger] attrs_view(list@)[j].payload,
                ) is None
            },
        },
{
    let ghost m = attrs_view(list@);
    let mut idx: usize = from;
    while idx < list.len()
        invariant
            from <= idx,
            m == attrs_view(list@),
            list_counters(o, m, from as int) == list_counters(o, m, idx as int),
            forall|j: int| from <= j < idx ==> elem_counter(o, #[trigger] m[j].payload) is None,
        decreases list@.len() - idx,
    {
        match parse_set_elem(o, &list[idx].payload) {
            Some(c) => {
                return Some((idx, c));
            },
            None => {},
        }
        idx = idx + 1;
    }
    None
}

/// Position within one set-element reply. Replies of a dump arrive one
/// at a time; the cursor keeps the attribute and element it has reached,
/// so that no element is reported twice or skipped.
pub struct NftElemCursor {
    pub order: ByteOrder,
    pub attrs: Vec<Attr>,
    pub cur_attr: usize,
    pub cur_elem: usize,
}

impl NftElemCursor {
    /// The counters that are still to come from this reply.
    pub open spec fn remaining(&self) -> Seq<CounterModel> {
        msg_counters(self.order, attrs_view(self.attrs@), self.cur_attr as int, self.cur_elem as int)
    }

    /// Starts on a reply with the given attributes.
    pub fn new(o: ByteOrder, attrs: Vec<Attr>) -> (r: NftElemCursor)
        ensures
            r.order == o,
            r.attrs@ == attrs@,
            r.remaining() == msg_counters(o, attrs_view(attrs@), 0, 0),
    {
        NftElemCursor { order: o, attrs, cur_attr: 0, cur_elem: 0 }
    }

    /// The next counter of the reply; `None` once the reply is exhausted.
    pub fn next_counter(&mut self) -> (r: Option<NftSetCounter>)
        ensures
            final(self).order == old(self).order,
            final(self).attrs@ == old(self).attrs@,
            match r {
                Some(c) => old(self).remaining() == seq![c@] + final(self).remaining(),
                None => old(self).remaining() == Seq::<CounterModel>::empty(),
            },
    {
        let o = self.order;
        let ghost m = attrs_view(self.attrs@);
        let ghost start = self.remaining();
        let n = self.attrs.len();
        while self.cur_attr < n
            invariant
                n == self.attrs@.len(),
                m == attrs_view(self.attrs@),
                self.attrs@ == old(self).attrs@,
                self.order == o,
                o == old(self).order,
                start == self.remaining(),
                start == old(self).remaining(),
            decreases n - self.cur_attr,
        {
            let a = self.cur_attr;
            let e = self.cur_elem;
            if self.attrs[a].tag == NFTA_SET_ELEM_LIST_ELEMENTS {
                match parse_attrs(o, self.attrs[a].payload.as_slice()) {
                    Some(list) => {
                        match parse_set_elem_list(o, &list, e) {
                            Some((idx, c)) => {
                                self.cur_elem = idx + 1;
                                proof {
                                    let l = attrs_view(list@);
                                    let tail = msg_counters(o, m, a + 1, 0);
                                    assert(m[a as int].payload == self.attrs@[a as int].payload@);
                                    assert(start == list_counters(o, l, e as int) + tail);
                                    assert(self.remaining() == list_counters(o, l, idx + 1) + tail);
                                    assert(start =~= seq![c@] + self.remaining());
                                }
                                return Some(c);
                            },
                            None => {},
                        }
                    },
                    None => {},
                }
            }
            self.cur_attr = a + 1;
            self.cur_elem = 0;
            proof {
                assert(msg_counters(o, m, a as int, e as int) == Seq::<CounterModel>::empty() + msg_counters(o, m, a + 1, 0));
                assert(Seq::<CounterModel>::empty() + msg_counters(o, m, a + 1, 0) =~= msg_counters(o, m, a + 1, 0));
            }
        }
        None
    }
}

/// A set with the anonymous flag is never exported, whatever its key
/// type; a set whose key type is not an address type is never exported,
/// whatever its flags.
pub proof fn lemma_set_filter(attrs: Seq<AttrModel>)
    ensures
        (be32_attr(attrs, NFTA_SET_FLAGS) matches Some(f) && f & NFT_SET_ANONYMOUS != 0)
            ==> !set_exported(attrs),
        (be32_attr(attrs, NFTA_SET_KEY_TYPE) matches Some(t) && !address_key_type(t))
            ==> !set_exported(attrs),
{
}

/// Length of the netfilter header (family, version, resource id).
pub const NFGENMSG_LEN: usize = 4;

/// Decodes a whole set reply payload; the family is its first byte.
pub fn parse_set_message(o: ByteOrder, p: &[u8]) -> (r: Option<NftSet>)
    ensures
        r is Some <==> (body_attrs(o, p@, NFGENMSG_LEN as int) matches Some(a) && set_exported(a)),
        r matches Some(s) ==> (body_attrs(o, p@, NFGENMSG_LEN as int) matches Some(a) && {
            &&& s.family == p@[0]
            &&& Some(s.table@) == str_attr(a, NFTA_SET_TABLE)
            &&& Some(s.name@) == str_attr(a, NFTA_SET_NAME)
        }),
{
    if p.len() < NFGENMSG_LEN {
        return None;
    }
    let attrs = match parse_attrs(o, slice_subrange(p, NFGENMSG_LEN, p.len())) {
        Some(a) => a,
        None => return None,
    };
    parse_set(p[0], &attrs)
}

impl NftElemCursor {
    /// Starts on a whole set-element reply payload; `None` where its
    /// attributes cannot be decoded.
    pub fn from_message(o: ByteOrder, p: &[u8]) -> (r: Option<NftElemCursor>)
        ensures
            r is Some <==> body_attrs(o, p@, NFGENMSG_LEN as int) is Some,
            r matches Some(c) ==> (body_attrs(o, p@, NFGENMSG_LEN as int) matches Some(a)
                && c.remaining() == msg_counters(o, a, 0, 0)),
    {
        if p.len() < NFGENMSG_LEN {
            return None;
        }
        match parse_attrs(o, slice_subrange(p, NFGENMSG_LEN, p.len())) {
            Some(a) => Some(NftElemCursor::new(o, a)),
            None => None,
        }
    }
}

/// Message type of the nftables "get set" request (subsystem 10).
pub const NFT_MSG_GETSET: u16 = 2570;
/// Message type of the nftables "get set element" request.
pub const NFT_MSG_GETSETELEM: u16 = 2573;
pub const NFTA_SET_ELEM_LIST_TABLE: u16 = 1;
pub const NFTA_SET_ELEM_LIST_SET: u16 = 2;

/// Payload of a set dump request: a netfilter header of family 0,
/// version 0.
pub fn getset_request() -> (r: Vec<u8>)
    ensures
        r@ == seq![0u8, 0, 0, 0],
{
    let r = vec![0u8, 0, 0, 0];
    r
}

/// A string attribute payload: the bytes and a terminating zero.
pub open spec fn cstr(s: Seq<u8>) -> Seq<u8> {
    s.push(0u8)
}

fn cstr_bytes(s: &String) -> (r: Vec<u8>)
    ensures
        r@ == cstr(encode_utf8(s@)),
{
    let mut r = s.as_str().as_bytes_vec();
    r.push(0);
    r
}

/// Payload of an element dump request for one set: its family, then its
/// table and set names.
pub fn getsetelem_request(o: ByteOrder, set: &NftSet) -> (r: Vec<u8>)
    requires
        encode_utf8(set.table@).len() < 65000,
        encode_utf8(set.name@).len() < 65000,
    ensures
        r@ == seq![set.family, 0u8, 0, 0] + attr_bytes(o, NFTA_SET_ELEM_LIST_TABLE,
            cstr(encode_utf8(set.table@)),
        ) + attr_bytes(o, NFTA_SET_ELEM_LIST_SET, cstr(encode_utf8(set.name@))),
{
    let mut r = vec![set.family, 0u8, 0, 0];
    let t = cstr_bytes(&set.table);
    push_attr(o, &mut r, NFTA_SET_ELEM_LIST_TABLE, t.as_slice());
    let n = cstr_bytes(&set.name);
    push_attr(o, &mut r, NFTA_SET_ELEM_LIST_SET, n.as_slice());
    r
}

} // verus!
