//! Canonical text of the addresses that label samples: IPv4 dotted
//! decimal, colon-separated lower-case MAC, and IPv6 with the longest run
//! of zero groups compressed (IPv4-mapped addresses in mixed notation).

use vstd::prelude::*;
use vstd::string::*;
use crate::metric::{dec, digit, push_dec};

verus! {

pub open spec fn hex_digit(d: nat) -> char {
    if d < 10 {
        digit(d)
    } else if d == 10 {
        'a'
    } else if d == 11 {
        'b'
    } else if d == 12 {
        'c'
    } else if d == 13 {
        'd'
    } else if d == 14 {
        'e'
    } else {
        'f'
    }
}

/// Lower-case hexadecimal text without leading zeros.
pub open spec fn hex(n: nat) -> Seq<char>
    decreases n,
{
    if n < 16 {
        seq![hex_digit(n)]
    } else {
        hex(n / 16).push(hex_digit(n % 16))
    }
}

/// Exactly two lower-case hexadecimal digits.
pub open spec fn hex2(b: u8) -> Seq<char> {
    seq![hex_digit((b / 16) as nat), hex_digit((b % 16) as nat)]
}

pub open spec fn ipv4_text(b: Seq<u8>) -> Seq<char> {
    dec(b[0] as nat) + seq!['.'] + dec(b[1] as nat) + seq!['.'] + dec(b[2] as nat) + seq!['.']
        + dec(b[3] as nat)
}

pub open spec fn mac_text(b: Seq<u8>) -> Seq<char> {
    hex2(b[0]) + seq![':'] + hex2(b[1]) + seq![':'] + hex2(b[2]) + seq![':'] + hex2(b[3]) + seq![
        ':',
    ] + hex2(b[4]) + seq![':'] + hex2(b[5])
}

/// The eight 16-bit groups of an IPv6 address, most significant first.
pub open spec fn groups(b: Seq<u8>) -> Seq<nat> {
    Seq::new(8, |k: int| (256 * b[2 * k] as int + b[2 * k + 1] as int) as nat)
}

/// Groups in hexadecimal, separated by colons.
pub open spec fn join_hex(g: Seq<nat>) -> Seq<char>
    decreases g.len(),
{
    if g.len() == 0 {
        Seq::empty()
    } else if g.len() == 1 {
        hex(g[0])
    } else {
        join_hex(g.drop_last()) + seq![':'] + hex(g.last())
    }
}

/// Scan state over the first `i` groups: the current run of zero groups
/// and the longest so far (the earliest of equally long runs), each as
/// (start, length).
pub open spec fn zero_runs(g: Seq<nat>, i: int) -> (int, int, int, int)
    decreases i,
{
    if i <= 0 {
        (0, 0, 0, 0)
    } else {
        let (cs, cl, bs, bl) = zero_runs(g, i - 1);
        if g[i - 1] == 0 {
            let ns = if cl == 0 { i - 1 } else { cs };
            let nl = cl + 1;
            if nl > bl { (ns, nl, ns, nl) } else { (ns, nl, bs, bl) }
        } else {
            (0, 0, bs, bl)
        }
    }
}

pub open spec fn ipv4_mapped(b: Seq<u8>) -> bool {
    forall|k: int| 0 <= k < 10 ==> b[k] == 0
} 

pub open spec fn ipv6_text(b: Seq<u8>) -> Seq<char> {
    let g = groups(b);
    let (cs, cl, bs, bl) = zero_runs(g, 8);
    if ipv4_mapped(b) && b[10] == 255 && b[11] == 255 {
        "::ffff:"@ + ipv4_text(b.subrange(12, 16))
    } else if bl > 1 {
        join_hex(g.subrange(0, bs)) + seq![':', ':'] + join_hex(g.subrange(bs + bl, 8))
    } else {
        join_hex(g)
    }
}

fn hex_digit_str(d: u16) -> (r: &'static str)
    requires
        d < 16,
    ensures
        r@ == seq![hex_digit(d as nat)],
{
    proof {
        reveal_strlit("0");
        reveal_strlit("1");
        reveal_strlit("2");
        reveal_strlit("3");
        reveal_strlit("4");
        reveal_strlit("5");
        reveal_strlit("6");
        reveal_strlit("7");
        reveal_strlit("8");
        reveal_strlit("9");
        reveal_strlit("a");
        reveal_strlit("b");
        reveal_strlit("c");
        reveal_strlit("d");
        reveal_strlit("e");
        reveal_strlit("f");
    }
    if d == 0 { "0" }
    else if d == 1 { "1" }
    else if d == 2 { "2" }
    else if d == 3 { "3" }
    else if d == 4 { "4" }
    else if d == 5 { "5" }
    else if d == 6 { "6" }
    else if d == 7 { "7" }
    else if d == 8 { "8" }
    else if d == 9 { "9" }
    else if d == 10 { "a" }
    else if d == 11 { "b" }
    else if d == 12 { "c" }
    else if d == 13 { "d" }
    else if d == 14 { "e" }
    else { "f" }
}

fn push_hex(out: &mut String, n: u16)
    ensures
        final(out)@ == old(out)@ + hex(n as nat),
    decreases n,
{
    if n < 16 {
        out.append(hex_digit_str(n));
    } else {
        push_hex(out, n / 16);
        out.append(hex_digit_str(n % 16));
    }
}

fn push_hex2(out: &mut String, b: u8)
    ensures
        final(out)@ == old(out)@ + hex2(b),
{
    out.append(hex_digit_str((b / 16) as u16));
    out.append(hex_digit_str((b % 16) as u16));
    proof {
        assert(final(out)@ =~= old(out)@ + hex2(b));
    }
}

pub fn ipv4_to_string(b: &Vec<u8>) -> (r: String)
    requires
        b@.len() == 4,
    ensures
        r@ == ipv4_text(b@),
{
    proof {
        reveal_strlit(".");
    }
    let mut out = String::new();
    push_dec(&mut out, b[0] as u64);
    out.append(".");
    push_dec(&mut out, b[1] as u64);
    out.append(".");
    push_dec(&mut out, b[2] as u64);
    out.append(".");
    push_dec(&mut out, b[3] as u64);
    proof {
        assert(out@ =~= ipv4_text(b@));
    }
    out
}

pub fn mac_to_string(b: &Vec<u8>) -> (r: String)
    requires
        b@.len() == 6,
    ensures
        r@ == mac_text(b@),
{
    proof {
        reveal_strlit(":");
    }
    let mut out = String::new();
    push_hex2(&mut out, b[0]);
    out.append(":");
    push_hex2(&mut out, b[1]);
    out.append(":");
    push_hex2(&mut out, b[2]);
    out.append(":");
    push_hex2(&mut out, b[3]);
    out.append(":");
    push_hex2(&mut out, b[4]);
    out.append(":");
    push_hex2(&mut out, b[5]);
    proof {
        assert(out@ =~= mac_text(b@));
    }
    out
}

fn group_at(b: &Vec<u8>, k: usize) -> (r: u16)
    requires
        b@.len() == 16,
        k < 8,
    ensures
        r as nat == groups(b@)[k as int],
{
    256 * (b[2 * k] as u16) + b[2 * k + 1] as u16
}

/// Appends groups `from..to` in hexadecimal, separated by colons.
fn push_groups(out: &mut String, b: &Vec<u8>, from: usize, to: usize)
    requires
        b@.len() == 16,
        from <= to <= 8,
    ensures
        final(out)@ == old(out)@ + join_hex(groups(b@).subrange(from as int, to as int)),
{
    let ghost g = groups(b@);
    let ghost start = out@;
    let mut k: usize = from;
    proof {
        reveal_strlit(":");
        assert(g.subrange(from as int, from as int) =~= Seq::<nat>::empty());
    }
    while k < to
        invariant
            b@.len() == 16,
            from <= k <= to <= 8,
            g == groups(b@),
            out@ == start + join_hex(g.subrange(from as int, k as int)),
        decreases to - k,
    {
        proof {
            reveal_strlit(":");
        }
        if k > from {
            out.append(":");
        }
        push_hex(&mut *out, group_at(b, k));
        proof {
            let s = g.subrange(from as int, k + 1);
            assert(s.drop_last() =~= g.subrange(from as int, k as int));
            if k == from {
                assert(join_hex(g.subrange(from as int, k as int)) =~= Seq::<char>::empty());
            }
            assert(out@ =~= start + join_hex(s));
        }
        k = k + 1;
    }
}

pub fn ipv6_to_string(b: &Vec<u8>) -> (r: String)
    requires
        b@.len() == 16,
    ensures
        r@ == ipv6_text(b@),
{
    let ghost g = groups(b@);
    let mut out = String::new();
    let mut mapped = b[10] == 255 && b[11] == 255;
    let mut k: usize = 0;
    while k < 10
        invariant
            b@.len() == 16,
            k <= 10,
            mapped == (b@[10] == 255 && b@[11] == 255 && forall|j: int| 0 <= j < k ==> b@[j] == 0),
        decreases 10 - k,
    {
        if b[k] != 0 {
            mapped = false;
        }
        k = k + 1;
    }
    if mapped {
        proof {
            reveal_strlit("::ffff:");
        }
        out.append("::ffff:");
        let v4 = slice_to_vec_u8(b, 12);
        let t = ipv4_to_string(&v4);
        out.append(t.as_str());
        return out;
    }
    let mut cs: usize = 0;
    let mut cl: usize = 0;
    let mut bs: usize = 0;
    let mut bl: usize = 0;
    let mut i: usize = 0;
    while i < 8
        invariant
            b@.len() == 16,
            i <= 8,
            g == groups(b@),
            (cs as int, cl as int, bs as int, bl as int) == zero_runs(g, i as int),
            cs + cl <= i,
            bs + bl <= i,
        decreases 8 - i,
    {
        if group_at(b, i) == 0 {
            if cl == 0 {
                cs = i;
            }
            cl = cl + 1;
            if cl > bl {
                bs = cs;
                bl = cl;
            }
        } else {
            cs = 0;
            cl = 0;
        }
        i = i + 1;
    }
    if bl > 1 {
        proof {
            reveal_strlit("::");
        }
        push_groups(&mut out, b, 0, bs);
        out.append("::");
        push_groups(&mut out, b, bs + bl, 8);
    } else {
        push_groups(&mut out, b, 0, 8);
        proof {
            assert(g.subrange(0, 8) =~= g);
        }
    }
    out
}

fn slice_to_vec_u8(b: &Vec<u8>, from: usize) -> (r: Vec<u8>)
    requires
        from <= b@.len(),
    ensures
        r@ == b@.subrange(from as int, b@.len() as int),
{
    let mut r: Vec<u8> = Vec::new();
    let mut k: usize = from;
    while k < b.len()
        invariant
            from <= k <= b@.len(),
            r@ == b@.subrange(from as int, k as int),
        decreases b@.len() - k,
    {
        r.push(b[k]);
        proof {
            assert(r@ =~= b@.subrange(from as int, k + 1));
        }
        k = k + 1;
    }
    r
}

} // verus!
