//! Netlink attribute trees: decoding of the tag-length-value attribute
//! encoding and typed, fallible readers of attribute payloads.
//!
//! Netlink carries integers in the host's byte order, which the caller
//! names with a `ByteOrder`; the netfilter payloads that are in network
//! order are read as big-endian whatever the host.

use vstd::prelude::*;
use vstd::slice::{slice_subrange, slice_to_vec};
use vstd::utf8::{decode_utf8, valid_utf8};

verus! {

/// What an attribute is: its tag (without the nested and byte-order flag
/// bits) and its payload bytes.
pub ghost struct AttrModel {
    pub tag: u16,
    pub payload: Seq<u8>,
}

/// One attribute of a netlink message.
pub struct Attr {
    pub tag: u16,
    pub payload: Vec<u8>,
}

impl View for Attr {
    type V = AttrModel;

    open spec fn view(&self) -> AttrModel {
        AttrModel { tag: self.tag, payload: self.payload@ }
    }
}

pub open spec fn attrs_view(v: Seq<Attr>) -> Seq<AttrModel> {
    v.map_values(|a: Attr| a@)
}

pub open spec fn le16(b: Seq<u8>, i: int) -> int {
    b[i] as int + 256 * b[i + 1] as int
}

pub open spec fn le32(b: Seq<u8>, i: int) -> int {
    le16(b, i) + 65536 * le16(b, i + 2)
}

pub open spec fn le64(b: Seq<u8>, i: int) -> int {
    le32(b, i) + 4294967296 * le32(b, i + 4)
}

pub open spec fn be16(b: Seq<u8>, i: int) -> int {
    256 * b[i] as int + b[i + 1] as int
}

pub open spec fn be32(b: Seq<u8>, i: int) -> int {
    65536 * be16(b, i) + be16(b, i + 2)
}

pub open spec fn be64(b: Seq<u8>, i: int) -> int {
    4294967296 * be32(b, i) + be32(b, i + 4)
}

/// Byte order of the host, in which netlink carries its integers.
#[derive(Clone, Copy, Debug, PartialEq, Eq, Structural)]
pub enum ByteOrder {
    Little,
    Big,
}

pub open spec fn h16(o: ByteOrder, b: Seq<u8>, i: int) -> int {
    if o is Little { le16(b, i) } else { be16(b, i) }
}

pub open spec fn h32(o: ByteOrder, b: Seq<u8>, i: int) -> int {
    if o is Little { le32(b, i) } else { be32(b, i) }
}

pub open spec fn h64(o: ByteOrder, b: Seq<u8>, i: int) -> int {
    if o is Little { le64(b, i) } else { be64(b, i) }
}

/// Attributes start on four-byte boundaries.
pub open spec fn align4(n: int) -> int {
    (n + 3) / 4 * 4
}

/// Decodes a buffer of attributes. Each attribute has a 16-bit length
/// (header included), a 16-bit tag whose two high bits are flags, and its
/// payload, padded to four bytes; the last one may go without padding. A
/// length shorter than the header or beyond the buffer makes the whole
/// buffer undecodable.
pub open spec fn parse_attrs_spec(o: ByteOrder, b: Seq<u8>) -> Option<Seq<AttrModel>>
    decreases b.len(),
{
    if b.len() == 0 {
        Some(Seq::empty())
    } else if b.len() < 4 {
        None
    } else {
        let l = h16(o, b, 0);
        if l < 4 || l > b.len() {
            None
        } else {
            let next = if align4(l) < b.len() { align4(l) } else { b.len() as int };
            match parse_attrs_spec(o, b.subrange(next, b.len() as int)) {
                None => None,
                Some(rest) => Some(
                    seq![AttrModel { tag: (h16(o, b, 2) % 16384) as u16, payload: b.subrange(4, l) }]
                        + rest,
                ),
            }
        }
    }
}

pub fn read_le16(b: &[u8], i: usize) -> (r: u16)
    requires
        i + 2 <= b@.len(),
        b@.len() <= usize::MAX,
    ensures
        r == le16(b@, i as int),
{
    b[i] as u16 + 256 * (b[i + 1] as u16)
}

pub fn read_le32(b: &[u8], i: usize) -> (r: u32)
    requires
        i + 4 <= b@.len(),
        b@.len() <= usize::MAX,
    ensures
        r == le32(b@, i as int),
{
    let lo = read_le16(b, i) as u32;
    let hi = read_le16(b, i + 2) as u32;
    lo + 65536 * hi
}

pub fn read_le64(b: &[u8], i: usize) -> (r: u64)
    requires
        i + 8 <= b@.len(),
        b@.len() <= usize::MAX,
    ensures
        r == le64(b@, i as int),
{
    let lo = read_le32(b, i) as u64;
    let hi = read_le32(b, i + 4) as u64;
    lo + 4294967296 * hi
}

pub fn read_be16(b: &[u8], i: usize) -> (r: u16)
    requires
        i + 2 <= b@.len(),
        b@.len() <= usize::MAX,
    ensures
        r == be16(b@, i as int),
{
    256 * (b[i] as u16) + b[i + 1] as u16
}

pub fn read_be32(b: &[u8], i: usize) -> (r: u32)
    requires
        i + 4 <= b@.len(),
        b@.len() <= usize::MAX,
    ensures
        r == be32(b@, i as int),
{
    let hi = read_be16(b, i) as u32;
    let lo = read_be16(b, i + 2) as u32;
    65536 * hi + lo
}

pub fn read_be64(b: &[u8], i: usize) -> (r: u64)
    requires
        i + 8 <= b@.len(),
        b@.len() <= usize::MAX,
    ensures
        r == be64(b@, i as int),
{
    let hi = read_be32(b, i) as u64;
    let lo = read_be32(b, i + 4) as u64;
    4294967296 * hi + lo
}

pub fn read_h16(o: ByteOrder, b: &[u8], i: usize) -> (r: u16)
    requires
        i + 2 <= b@.len(),
        b@.len() <= usize::MAX,
    ensures
        r == h16(o, b@, i as int),
{
    match o {
        ByteOrder::Little => read_le16(b, i),
        ByteOrder::Big => read_be16(b, i),
    }
}

pub fn read_h32(o: ByteOrder, b: &[u8], i: usize) -> (r: u32)
    requires
        i + 4 <= b@.len(),
        b@.len() <= usize::MAX,
    ensures
        r == h32(o, b@, i as int),
{
    match o {
        ByteOrder::Little => read_le32(b, i),
        ByteOrder::Big => read_be32(b, i),
    }
}

pub fn read_h64(o: ByteOrder, b: &[u8], i: usize) -> (r: u64)
    requires
        i + 8 <= b@.len(),
        b@.len() <= usize::MAX,
    ensures
        r == h64(o, b@, i as int),
{
    match o {
        ByteOrder::Little => read_le64(b, i),
        ByteOrder::Big => read_be64(b, i),
    }
}

/// Decodes a buffer of attributes; `None` where the buffer is malformed.
pub fn parse_attrs(o: ByteOrder, b: &[u8]) -> (r: Option<Vec<Attr>>)
    ensures
        match r {
            Some(v) => parse_attrs_spec(o, b@) == Some(attrs_view(v@)),
            None => parse_attrs_spec(o, b@) is None,
        },
{
    let n = b.len();
    let mut out: Vec<Attr> = Vec::new();
    let mut pos: usize = 0;
    proof {
        assert(b@.subrange(0, n as int) =~= b@);
        match parse_attrs_spec(o, b@) {
            None => {},
            Some(rest) => {
                assert(attrs_view(out@) + rest =~= rest);
            },
        }
    }
    while pos < n
        invariant
            n == b@.len(),
            pos <= n,
            match parse_attrs_spec(o, b@.subrange(pos as int, n as int)) {
                None => parse_attrs_spec(o, b@) is None,
                Some(rest) => parse_attrs_spec(o, b@) == Some(attrs_view(out@) + rest),
            },
        decreases n - pos,
    {
        let ghost cur = b@.subrange(pos as int, n as int);
        if n - pos < 4 {
            return None;
        }
        let l = read_h16(o, b, pos) as usize;
        let tag = read_h16(o, b, pos + 2) % 16384;
        proof {
            assert(h16(o, cur, 0) == h16(o, b@, pos as int));
            assert(h16(o, cur, 2) == h16(o, b@, pos + 2));
        }
        if l < 4 || l > n - pos {
            return None;
        }
        let payload = slice_to_vec(slice_subrange(b, pos + 4, pos + l));
        let next: usize = if (l + 3) / 4 * 4 < n - pos { pos + (l + 3) / 4 * 4 } else { n };
        let ghost old_out = out@;
        out.push(Attr { tag, payload });
        proof {
            let a = AttrModel { tag: tag, payload: cur.subrange(4, l as int) };
            assert(cur.subrange(4, l as int) =~= b@.subrange(pos + 4, pos + l));
            assert(cur.subrange(next - pos, cur.len() as int) =~= b@.subrange(next as int, n as int));
            assert(attrs_view(out@) =~= attrs_view(old_out).push(a));
            match parse_attrs_spec(o, b@.subrange(next as int, n as int)) {
                None => {},
                Some(rest) => {
                    assert(attrs_view(out@) + rest =~= attrs_view(old_out) + (seq![a] + rest));
                },
            }
        }
        pos = next;
    }
    proof {
        assert(b@.subrange(n as int, n as int) =~= Seq::<u8>::empty());
        assert(attrs_view(out@) + Seq::<AttrModel>::empty() =~= attrs_view(out@));
    }
    Some(out)
}

/// Relies on `String::from_utf8`: it succeeds exactly on valid UTF-8 and
/// then holds the characters that the bytes encode.
#[verifier::external_body]
fn string_from_utf8(b: Vec<u8>) -> (r: Option<String>)
    ensures
        r is Some <==> valid_utf8(b@),
        r is Some ==> r->0@ == decode_utf8(b@),
{
    String::from_utf8(b).ok()
}

/// A string payload: the bytes before the final terminator byte, as UTF-8.
pub open spec fn string_payload(p: Seq<u8>) -> Option<Seq<char>> {
    if p.len() >= 1 && valid_utf8(p.subrange(0, p.len() - 1)) {
        Some(decode_utf8(p.subrange(0, p.len() - 1)))
    } else {
        None
    }
}

pub fn payload_as_string(p: &Vec<u8>) -> (r: Option<String>)
    ensures
        match r {
            Some(s) => string_payload(p@) == Some(s@),
            None => string_payload(p@) is None,
        },
{
    if p.len() == 0 {
        return None;
    }
    let body = slice_to_vec(slice_subrange(p.as_slice(), 0, p.len() - 1));
    string_from_utf8(body)
}

/// Index of the last attribute with tag `tag`, if any.
pub open spec fn last_index(attrs: Seq<AttrModel>, tag: u16) -> Option<int>
    decreases attrs.len(),
{
    if attrs.len() == 0 {
        None
    } else if attrs.last().tag == tag {
        Some(attrs.len() - 1)
    } else {
        last_index(attrs.drop_last(), tag)
    }
}

/// Payload of the last attribute with tag `tag`: a later attribute of the
/// same tag overrides an earlier one.
pub open spec fn last_payload(attrs: Seq<AttrModel>, tag: u16) -> Option<Seq<u8>> {
    match last_index(attrs, tag) {
        Some(i) => Some(attrs[i].payload),
        None => None,
    }
}

/// Payload of the first attribute with tag `tag`.
pub open spec fn first_payload(attrs: Seq<AttrModel>, tag: u16) -> Option<Seq<u8>>
    decreases attrs.len(),
{
    if attrs.len() == 0 {
        None
    } else if attrs[0].tag == tag {
        Some(attrs[0].payload)
    } else {
        first_payload(attrs.drop_first(), tag)
    }
}

proof fn lemma_last_index_bounds(attrs: Seq<AttrModel>, tag: u16)
    ensures
        match last_index(attrs, tag) {
            Some(i) => 0 <= i < attrs.len() && attrs[i].tag == tag,
            None => true,
        },
    decreases attrs.len(),
{
    if attrs.len() > 0 && attrs.last().tag != tag {
        lemma_last_index_bounds(attrs.drop_last(), tag);
    }
}

/// Finds the last attribute with tag `tag`.
pub fn find_last<'a>(attrs: &'a Vec<Attr>, tag: u16) -> (r: Option<&'a Attr>)
    ensures
        match r {
            Some(a) => last_payload(attrs_view(attrs@), tag) == Some(a.payload@) && a.tag == tag,
            None => last_payload(attrs_view(attrs@), tag) is None,
        },
{
    let ghost m = attrs_view(attrs@);
    let mut i: usize = attrs.len();
    proof {
        assert(m.subrange(0, i as int) =~= m);
    }
    while i > 0
        invariant
            i <= attrs@.len(),
            m == attrs_view(attrs@),
            last_index(m, tag) == last_index(m.subrange(0, i as int), tag),
        decreases i,
    {
        let ghost pre = m.subrange(0, i as int);
        if attrs[i - 1].tag == tag {
            proof {
                lemma_last_index_bounds(m, tag);
            }
            return Some(&attrs[i - 1]);
        }
        proof {
            assert(pre.drop_last() =~= m.subrange(0, i - 1));
        }
        i = i - 1;
    }
    proof {
        lemma_last_index_bounds(m, tag);
    }
    None
}

/// Finds the first attribute with tag `tag`.
pub fn find_first<'a>(attrs: &'a Vec<Attr>, tag: u16) -> (r: Option<&'a Attr>)
    ensures
        match r {
            Some(a) => first_payload(attrs_view(attrs@), tag) == Some(a.payload@) && a.tag == tag,
            None => first_payload(attrs_view(attrs@), tag) is None,
        },
{
    let ghost m = attrs_view(attrs@);
    let n = attrs.len();
    let mut i: usize = 0;
    proof {
        assert(m.subrange(0, n as int) =~= m);
    }
    while i < n
        invariant
            n == attrs@.len(),
            i <= n,
            m == attrs_view(attrs@),
            first_payload(m, tag) == first_payload(m.subrange(i as int, n as int), tag),
        decreases n - i,
    {
        let ghost rest = m.subrange(i as int, n as int);
        if attrs[i].tag == tag {
            return Some(&attrs[i]);
        }
        proof {
            assert(rest.drop_first() =~= m.subrange(i + 1, n as int));
        }
        i = i + 1;
    }
    None
}

/// A one-byte payload reader: the first byte.
pub open spec fn u8_payload(p: Seq<u8>) -> Option<u8> {
    if p.len() >= 1 { Some(p[0]) } else { None }
}

/// A 32-bit payload in host order.
pub open spec fn h32_payload(o: ByteOrder, p: Seq<u8>) -> Option<u32> {
    if p.len() >= 4 { Some(h32(o, p, 0) as u32) } else { None }
}

/// A 32-bit payload in network (big-endian) order.
pub open spec fn be32_payload(p: Seq<u8>) -> Option<u32> {
    if p.len() >= 4 { Some(be32(p, 0) as u32) } else { None }
}

/// A 64-bit payload in network (big-endian) order.
pub open spec fn be64_payload(p: Seq<u8>) -> Option<u64> {
    if p.len() >= 8 { Some(be64(p, 0) as u64) } else { None }
}

pub fn payload_as_u8(p: &Vec<u8>) -> (r: Option<u8>)
    ensures
        r == u8_payload(p@),
{
    if p.len() >= 1 { Some(p[0]) } else { None }
}

pub fn payload_as_h32(o: ByteOrder, p: &Vec<u8>) -> (r: Option<u32>)
    ensures
        r == h32_payload(o, p@),
{
    if p.len() >= 4 { Some(read_h32(o, p.as_slice(), 0)) } else { None }
}

pub fn payload_as_be32(p: &Vec<u8>) -> (r: Option<u32>)
    ensures
        r == be32_payload(p@),
{
    if p.len() >= 4 { Some(read_be32(p.as_slice(), 0)) } else { None }
}

pub fn payload_as_be64(p: &Vec<u8>) -> (r: Option<u64>)
    ensures
        r == be64_payload(p@),
{
    if p.len() >= 8 { Some(read_be64(p.as_slice(), 0)) } else { None }
}

/// A 16-bit value in host order.
pub open spec fn h16_bytes(o: ByteOrder, n: nat) -> Seq<u8> {
    let lo = (n % 256) as u8;
    let hi = ((n / 256) % 256) as u8;
    if o is Little { seq![lo, hi] } else { seq![hi, lo] }
}

fn push_h16(o: ByteOrder, out: &mut Vec<u8>, n: u16)
    ensures
        final(out)@ == old(out)@ + h16_bytes(o, n as nat),
{
    let lo = (n % 256) as u8;
    let hi = (n / 256) as u8;
    match o {
        ByteOrder::Little => {
            out.push(lo);
            out.push(hi);
        },
        ByteOrder::Big => {
            out.push(hi);
            out.push(lo);
        },
    }
    proof {
        assert(final(out)@ =~= old(out)@ + h16_bytes(o, n as nat));
    }
}

/// The encoding of one attribute: its length (header included), its
/// tag, its payload, and zero bytes up to a four-byte boundary.
pub open spec fn attr_bytes(o: ByteOrder, tag: u16, payload: Seq<u8>) -> Seq<u8> {
    let l = payload.len() + 4;
    h16_bytes(o, l as nat) + h16_bytes(o, tag as nat) + payload + Seq::new(
        (align4(l as int) - l) as nat,
        |i: int| 0u8,
    )
}

/// Appends one encoded attribute.
pub fn push_attr(o: ByteOrder, out: &mut Vec<u8>, tag: u16, payload: &[u8])
    requires
        payload@.len() + 4 <= 65535,
    ensures
        final(out)@ == old(out)@ + attr_bytes(o, tag, payload@),
{
    let ghost start = out@;
    let l = payload.len() + 4;
    push_h16(o, out, l as u16);
    push_h16(o, out, tag);
    let mut i: usize = 0;
    while i < payload.len()
        invariant
            i <= payload@.len(),
            out@ == start + h16_bytes(o, l as nat) + h16_bytes(o, tag as nat) + payload@.subrange(
                0,
                i as int,
            ),
        decreases payload@.len() - i,
    {
        out.push(payload[i]);
        proof {
            assert(payload@.subrange(0, i + 1) =~= payload@.subrange(0, i as int).push(payload@[i as int]));
        }
        i = i + 1;
    }
    proof {
        assert(payload@.subrange(0, payload@.len() as int) =~= payload@);
    }
    let ghost body = out@;
    let pad = (l + 3) / 4 * 4 - l;
    let mut k: usize = 0;
    while k < pad
        invariant
            k <= pad,
            pad == align4(l as int) - l,
            out@ == body + Seq::new(k as nat, |i: int| 0u8),
        decreases pad - k,
    {
        out.push(0);
        proof {
            assert(Seq::new((k + 1) as nat, |i: int| 0u8) =~= Seq::new(k as nat, |i: int| 0u8).push(0u8));
        }
        k = k + 1;
    }
    proof {
        assert(out@ =~= start + attr_bytes(o, tag, payload@));
    }
}

} // verus!
