//! The text form of an address, as it stands in a URL.
//!
//! An IPv4 address is written as its four octets in decimal, with dots
//! between them. An IPv6 address is written as its eight segments in
//! hexadecimal, with colons between them, the longest run of two or more
//! zero segments left out; an address that maps an IPv4 address ends in
//! that address, written as IPv4 addresses are.

use vstd::prelude::*;
use vstd::string::*;
use crate::target::TargetAddress;
use crate::text::{hex_digit, hex_digit_text};

verus! {

/// `n` in decimal, without leading zeros.
pub open spec fn decimal_text(n: nat) -> Seq<char>
    decreases n,
{
    if n < 10 {
        seq![hex_digit(n as int)]
    } else {
        decimal_text(n / 10) + seq![hex_digit((n % 10) as int)]
    }
}

/// `n` in lower-case hexadecimal, without leading zeros.
pub open spec fn hex_text(n: nat) -> Seq<char>
    decreases n,
{
    if n < 16 {
        seq![hex_digit(n as int)]
    } else {
        hex_text(n / 16) + seq![hex_digit((n % 16) as int)]
    }
}

/// The octet of index `k` of an IPv4 address, the first in the highest
/// bits.
pub open spec fn octet(bits: u32, k: int) -> u8 {
    if k == 0 {
        ((bits >> 24) & 0xff) as u8
    } else if k == 1 {
        ((bits >> 16) & 0xff) as u8
    } else if k == 2 {
        ((bits >> 8) & 0xff) as u8
    } else {
        (bits & 0xff) as u8
    }
}

/// An IPv4 address in dotted decimal.
pub open spec fn ipv4_text(bits: u32) -> Seq<char> {
    decimal_text(octet(bits, 0) as nat) + seq!['.'] + decimal_text(octet(bits, 1) as nat) + seq![
        '.',
    ] + decimal_text(octet(bits, 2) as nat) + seq!['.'] + decimal_text(octet(bits, 3) as nat)
}

/// The segment of index `k` of an IPv6 address, the first in the highest
/// bits.
pub open spec fn segment(bits: u128, k: int) -> u16 {
    if k == 0 {
        ((bits >> 112) & 0xffff) as u16
    } else if k == 1 {
        ((bits >> 96) & 0xffff) as u16
    } else if k == 2 {
        ((bits >> 80) & 0xffff) as u16
    } else if k == 3 {
        ((bits >> 64) & 0xffff) as u16
    } else if k == 4 {
        ((bits >> 48) & 0xffff) as u16
    } else if k == 5 {
        ((bits >> 32) & 0xffff) as u16
    } else if k == 6 {
        ((bits >> 16) & 0xffff) as u16
    } else {
        (bits & 0xffff) as u16
    }
}

/// The eight segments of an IPv6 address.
pub open spec fn segments(bits: u128) -> Seq<u16> {
    Seq::new(8, |k: int| segment(bits, k))
}

/// The length of the run of zero segments that starts at `at`.
pub open spec fn zero_run(segments: Seq<u16>, at: int) -> int
    decreases segments.len() - at,
{
    if 0 <= at < segments.len() && segments[at] == 0 {
        1 + zero_run(segments, at + 1)
    } else {
        0
    }
}

/// Where the longest run of zero segments at or after `from` starts, and
/// how long it is; of several longest runs, the first. The length is 0
/// where no segment is zero.
pub open spec fn longest_zero_run(segments: Seq<u16>, from: int) -> (int, int)
    decreases segments.len() - from,
{
    if 0 <= from < segments.len() {
        let later = longest_zero_run(segments, from + 1);
        let here = zero_run(segments, from);
        if here > 0 && here >= later.1 {
            (from, here)
        } else {
            later
        }
    } else {
        (from, 0)
    }
}

/// The segments from `from` up to `to` in hexadecimal, with colons between
/// them.
pub open spec fn joined_hex(segments: Seq<u16>, from: int, to: int) -> Seq<char>
    decreases to - from,
{
    if from >= to {
        Seq::empty()
    } else if from + 1 == to {
        hex_text(segments[from] as nat)
    } else {
        joined_hex(segments, from, to - 1) + seq![':'] + hex_text(segments[to - 1] as nat)
    }
}

/// Whether an IPv6 address maps an IPv4 address: its first five segments
/// are zero and its sixth is `ffff`.
pub open spec fn maps_ipv4(bits: u128) -> bool {
    bits >> 32 == 0xffff
}

/// The low 32 bits of an IPv6 address.
pub open spec fn low_bits(bits: u128) -> u32 {
    (bits & 0xffff_ffff) as u32
}

/// An IPv6 address in its text form.
pub open spec fn ipv6_text(bits: u128) -> Seq<char> {
    if maps_ipv4(bits) {
        seq![':', ':', 'f', 'f', 'f', 'f', ':'] + ipv4_text(low_bits(bits))
    } else {
        let all = segments(bits);
        let (start, len) = longest_zero_run(all, 0);
        if len > 1 {
            joined_hex(all, 0, start) + seq![':', ':'] + joined_hex(all, start + len, 8)
        } else {
            joined_hex(all, 0, 8)
        }
    }
}

/// Appends `n` in decimal to `out`.
fn push_decimal(out: &mut String, n: u32)
    ensures
        final(out)@ == old(out)@ + decimal_text(n as nat),
    decreases n,
{
    if n >= 10 {
        push_decimal(out, n / 10);
    }
    out.append(hex_digit_text(n % 10));
    assert(out@ =~= old(out)@ + decimal_text(n as nat));
}

/// Appends `n` in hexadecimal to `out`.
fn push_hex(out: &mut String, n: u32)
    ensures
        final(out)@ == old(out)@ + hex_text(n as nat),
    decreases n,
{
    if n >= 16 {
        push_hex(out, n / 16);
    }
    out.append(hex_digit_text(n % 16));
    assert(out@ =~= old(out)@ + hex_text(n as nat));
}

/// Appends an IPv4 address in dotted decimal to `out`.
fn push_ipv4(out: &mut String, bits: u32)
    ensures
        final(out)@ == old(out)@ + ipv4_text(bits),
{
    proof {
        reveal_strlit(".");
    }
    let o0: u8 = ((bits >> 24) & 0xff) as u8;
    let o1: u8 = ((bits >> 16) & 0xff) as u8;
    let o2: u8 = ((bits >> 8) & 0xff) as u8;
    let o3: u8 = (bits & 0xff) as u8;
    push_decimal(out, o0 as u32);
    out.append(".");
    push_decimal(out, o1 as u32);
    out.append(".");
    push_decimal(out, o2 as u32);
    out.append(".");
    push_decimal(out, o3 as u32);
    assert(out@ =~= old(out)@ + ipv4_text(bits));
}

/// The eight segments of an IPv6 address.
fn segments_of(bits: u128) -> (all: Vec<u16>)
    ensures
        all@ == segments(bits),
{
    let mut all: Vec<u16> = Vec::new();
    all.push(((bits >> 112) & 0xffff) as u16);
    all.push(((bits >> 96) & 0xffff) as u16);
    all.push(((bits >> 80) & 0xffff) as u16);
    all.push(((bits >> 64) & 0xffff) as u16);
    all.push(((bits >> 48) & 0xffff) as u16);
    all.push(((bits >> 32) & 0xffff) as u16);
    all.push(((bits >> 16) & 0xffff) as u16);
    all.push((bits & 0xffff) as u16);
    assert(all@ =~= segments(bits));
    all
}

/// Computes [`longest_zero_run`] from the first segment on.
fn find_longest_zero_run(all: &Vec<u16>) -> (run: (usize, usize))
    ensures
        (run.0 as int, run.1 as int) == longest_zero_run(all@, 0),
        run.1 > 0 ==> run.0 + run.1 <= all.len(),
{
    let mut k: usize = all.len();
    let mut here: usize = 0;
    let mut best: (usize, usize) = (all.len(), 0);
    while k > 0
        invariant
            k <= all.len(),
            here == zero_run(all@, k as int),
            here <= all.len() - k,
            (best.0 as int, best.1 as int) == longest_zero_run(all@, k as int),
            best.1 > 0 ==> best.0 + best.1 <= all.len(),
        decreases k,
    {
        k -= 1;
        if all[k] == 0 {
            here += 1;
        } else {
            here = 0;
        }
        if here > 0 && here >= best.1 {
            best = (k, here);
        }
    }
    best
}

/// Appends the segments from `from` up to `to` in hexadecimal, with colons
/// between them, to `out`.
fn push_joined_hex(out: &mut String, all: &Vec<u16>, from: usize, to: usize)
    requires
        from <= to <= all.len(),
    ensures
        final(out)@ == old(out)@ + joined_hex(all@, from as int, to as int),
{
    proof {
        reveal_strlit(":");
    }
    let mut k: usize = from;
    assert(out@ =~= old(out)@ + joined_hex(all@, from as int, from as int));
    while k < to
        invariant
            from <= k <= to <= all.len(),
            out@ == old(out)@ + joined_hex(all@, from as int, k as int),
        decreases to - k,
    {
        let ghost before = out@;
        if k > from {
            out.append(":");
        }
        push_hex(out, all[k] as u32);
        proof {
            reveal_strlit(":");
            assert(":"@ =~= seq![':']);
            let piece = hex_text(all@[k as int] as nat);
            if k == from {
                assert(joined_hex(all@, from as int, k as int) =~= Seq::<char>::empty());
                assert(joined_hex(all@, from as int, k + 1) == piece);
                assert(out@ =~= before + piece);
            } else {
                assert(joined_hex(all@, from as int, k + 1) == joined_hex(
                    all@,
                    from as int,
                    k as int,
                ) + seq![':'] + piece);
                assert(out@ =~= before + seq![':'] + piece);
            }
            assert(out@ =~= old(out)@ + joined_hex(all@, from as int, k + 1));
        }
        k += 1;
    }
}

/// An IPv6 address in its text form. See [`ipv6_text`].
fn ipv6_to_text(bits: u128) -> (text: String)
    ensures
        text@ == ipv6_text(bits),
{
    if bits >> 32 == 0xffff {
        proof {
            reveal_strlit("::ffff:");
        }
        let mut text = String::from_str("::ffff:");
        assert(text@ =~= seq![':', ':', 'f', 'f', 'f', 'f', ':']);
        push_ipv4(&mut text, (bits & 0xffff_ffff) as u32);
        text
    } else {
        proof {
            reveal_strlit("");
            reveal_strlit("::");
        }
        let all = segments_of(bits);
        let (start, len) = find_longest_zero_run(&all);
        let mut text = String::from_str("");
        assert(text@ =~= Seq::<char>::empty());
        if len > 1 {
            push_joined_hex(&mut text, &all, 0, start);
            text.append("::");
            push_joined_hex(&mut text, &all, start + len, 8);
            assert(text@ =~= ipv6_text(bits));
        } else {
            push_joined_hex(&mut text, &all, 0, 8);
            assert(text@ =~= ipv6_text(bits));
        }
        text
    }
}

impl TargetAddress {
    /// The text form of the address.
    pub open spec fn text(self) -> Seq<char> {
        match self {
            TargetAddress::V4(bits) => ipv4_text(bits),
            TargetAddress::V6(bits) => ipv6_text(bits),
        }
    }

    /// Writes the address in its text form.
    pub fn to_text(&self) -> (text: String)
        ensures
            text@ == self.text(),
    {
        match self {
            TargetAddress::V4(bits) => {
                proof {
                    reveal_strlit("");
                }
                let mut text = String::from_str("");
                push_ipv4(&mut text, *bits);
                assert(text@ =~= ipv4_text(*bits));
                text
            },
            TargetAddress::V6(bits) => ipv6_to_text(*bits),
        }
    }
}

} // verus!
