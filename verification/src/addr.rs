//! IP address values and parsing of textual IP literals.
//!
//! Addresses are modelled as plain integers (four octets for IPv4, eight
//! 16-bit segments for IPv6), and the accepted textual grammar is written
//! down as spec functions over byte sequences; the executable parsers are
//! proved to return exactly what the grammar says.

use vstd::prelude::*;
use vstd::slice::slice_subrange;

verus! {

/// An IPv4 address as four octets, most significant first.
#[derive(Clone, Copy, Debug, PartialEq, Eq, Structural)]
pub struct Ipv4Address {
    pub o0: u8,
    pub o1: u8,
    pub o2: u8,
    pub o3: u8,
}

/// An IPv6 address as eight 16-bit segments, most significant first.
#[derive(Clone, Copy, Debug, PartialEq, Eq, Structural)]
pub struct Ipv6Address {
    pub s0: u16,
    pub s1: u16,
    pub s2: u16,
    pub s3: u16,
    pub s4: u16,
    pub s5: u16,
    pub s6: u16,
    pub s7: u16,
}

/// An address of either family, the result of detection.
#[derive(Clone, Copy, Debug, PartialEq, Eq, Structural)]
pub enum IpAddress {
    V4(Ipv4Address),
    V6(Ipv6Address),
}

/// ASCII decimal digit.
pub open spec fn is_dec_digit(b: u8) -> bool {
    48 <= b <= 57
}

/// Value of an ASCII decimal digit.
pub open spec fn dec_val(b: u8) -> int {
    b - 48
}

/// One decimal octet of an IPv4 literal, read greedily from position `i`
/// (up to three digits, value at most 255, no leading zero): the value and
/// the position just past it, or `None` when no octet starts at `i`.
pub open spec fn parse_octet_at(s: Seq<u8>, i: int, end: int) -> Option<(u8, int)> {
    if i < end && is_dec_digit(s[i]) {
        if s[i] == 48 {
            Some((0u8, i + 1))
        } else if i + 1 < end && is_dec_digit(s[i + 1]) {
            if i + 2 < end && is_dec_digit(s[i + 2]) {
                let v = dec_val(s[i]) * 100 + dec_val(s[i + 1]) * 10 + dec_val(s[i + 2]);
                if v <= 255 {
                    Some((v as u8, i + 3))
                } else {
                    None
                }
            } else {
                Some(((dec_val(s[i]) * 10 + dec_val(s[i + 1])) as u8, i + 2))
            }
        } else {
            Some((dec_val(s[i]) as u8, i + 1))
        }
    } else {
        None
    }
}

/// An IPv4 literal occupying exactly `s[i .. end]`: four octets separated by
/// dots, or `None` when the range is not such a literal.
pub open spec fn parse_ipv4_range(s: Seq<u8>, i: int, end: int) -> Option<Ipv4Address> {
    match parse_octet_at(s, i, end) {
        None => None,
        Some((o0, j0)) => if j0 < end && s[j0] == 46 {
            match parse_octet_at(s, j0 + 1, end) {
                None => None,
                Some((o1, j1)) => if j1 < end && s[j1] == 46 {
                    match parse_octet_at(s, j1 + 1, end) {
                        None => None,
                        Some((o2, j2)) => if j2 < end && s[j2] == 46 {
                            match parse_octet_at(s, j2 + 1, end) {
                                None => None,
                                Some((o3, j3)) => if j3 == end {
                                    Some(Ipv4Address { o0, o1, o2, o3 })
                                } else {
                                    None
                                },
                            }
                        } else {
                            None
                        },
                    }
                } else {
                    None
                },
            }
        } else {
            None
        },
    }
}

/// Executable form of [`parse_octet_at`].
fn octet_at(s: &[u8], i: usize, end: usize) -> (r: Option<(u8, usize)>)
    requires
        i <= end <= s@.len(),
    ensures
        match r {
            None => parse_octet_at(s@, i as int, end as int) is None,
            Some((v, j)) => parse_octet_at(s@, i as int, end as int) == Some((v, j as int)),
        },
{
    if i < end && 48 <= s[i] && s[i] <= 57 {
        if s[i] == 48 {
            Some((0u8, i + 1))
        } else if i + 1 < end && 48 <= s[i + 1] && s[i + 1] <= 57 {
            if i + 2 < end && 48 <= s[i + 2] && s[i + 2] <= 57 {
                let v: u32 = (s[i] - 48) as u32 * 100 + (s[i + 1] - 48) as u32 * 10 + (s[i + 2]
                    - 48) as u32;
                if v <= 255 {
                    Some((v as u8, i + 3))
                } else {
                    None
                }
            } else {
                Some(((s[i] - 48) * 10 + (s[i + 1] - 48), i + 2))
            }
        } else {
            Some((s[i] - 48, i + 1))
        }
    } else {
        None
    }
}

/// Parse `s[i .. end]` as an IPv4 literal.
pub fn parse_ipv4(s: &[u8], i: usize, end: usize) -> (r: Option<Ipv4Address>)
    requires
        i <= end <= s@.len(),
    ensures
        r == parse_ipv4_range(s@, i as int, end as int),
{
    match octet_at(s, i, end) {
        None => None,
        Some((o0, j0)) => if j0 < end && s[j0] == 46 {
            match octet_at(s, j0 + 1, end) {
                None => None,
                Some((o1, j1)) => if j1 < end && s[j1] == 46 {
                    match octet_at(s, j1 + 1, end) {
                        None => None,
                        Some((o2, j2)) => if j2 < end && s[j2] == 46 {
                            match octet_at(s, j2 + 1, end) {
                                None => None,
                                Some((o3, j3)) => if j3 == end {
                                    Some(Ipv4Address { o0, o1, o2, o3 })
                                } else {
                                    None
                                },
                            }
                        } else {
                            None
                        },
                    }
                } else {
                    None
                },
            }
        } else {
            None
        },
    }
}

/// ASCII hexadecimal digit.
pub open spec fn is_hex_digit(b: u8) -> bool {
    is_dec_digit(b) || (97 <= b <= 102) || (65 <= b <= 70)
}

/// Value of an ASCII hexadecimal digit.
pub open spec fn hex_val(b: u8) -> int {
    if 48 <= b <= 57 {
        b - 48
    } else if 97 <= b <= 102 {
        b - 87
    } else {
        b - 55
    }
}

/// One 16-bit group of an IPv6 literal, read greedily from position `i`
/// (one to four hexadecimal digits): the value and the position just past
/// it, or `None` when no group starts at `i`.
pub open spec fn parse_h16_at(s: Seq<u8>, i: int, end: int) -> Option<(u16, int)> {
    if i < end && is_hex_digit(s[i]) {
        if i + 1 < end && is_hex_digit(s[i + 1]) {
            if i + 2 < end && is_hex_digit(s[i + 2]) {
                if i + 3 < end && is_hex_digit(s[i + 3]) {
                    Some(
                        (
                            (hex_val(s[i]) * 4096 + hex_val(s[i + 1]) * 256 + hex_val(s[i + 2])
                                * 16 + hex_val(s[i + 3])) as u16,
                            i + 4,
                        ),
                    )
                } else {
                    Some(
                        (
                            (hex_val(s[i]) * 256 + hex_val(s[i + 1]) * 16 + hex_val(
                                s[i + 2],
                            )) as u16,
                            i + 3,
                        ),
                    )
                }
            } else {
                Some(((hex_val(s[i]) * 16 + hex_val(s[i + 1])) as u16, i + 2))
            }
        } else {
            Some((hex_val(s[i]) as u16, i + 1))
        }
    } else {
        None
    }
}

/// The two 16-bit groups that an IPv4 address embedded at the end of an
/// IPv6 literal contributes.
pub open spec fn v4_groups(a: Ipv4Address) -> Seq<u16> {
    seq![
        ((a.o0 as int) * 256 + (a.o1 as int)) as u16,
        ((a.o2 as int) * 256 + (a.o3 as int)) as u16,
    ]
}

/// A colon-separated run of 16-bit groups occupying exactly `s[i .. end]`,
/// at most `max` groups. An empty range is zero groups. When `allow_v4`
/// holds, the run may end in an embedded IPv4 address, which counts as two
/// groups.
pub open spec fn parse_groups(s: Seq<u8>, i: int, end: int, max: int, allow_v4: bool) -> Option<
    Seq<u16>,
>
    decreases max,
{
    if i == end {
        Some(Seq::empty())
    } else if max <= 0 {
        None
    } else if allow_v4 && max >= 2 && parse_ipv4_range(s, i, end) is Some {
        Some(v4_groups(parse_ipv4_range(s, i, end)->Some_0))
    } else {
        match parse_h16_at(s, i, end) {
            None => None,
            Some((g, j)) => if j == end {
                Some(seq![g])
            } else if j + 1 < end && s[j] == 58 && s[j + 1] != 58 {
                match parse_groups(s, j + 1, end, max - 1, allow_v4) {
                    None => None,
                    Some(rest) => Some(seq![g] + rest),
                }
            } else {
                None
            },
        }
    }
}

/// Position of the first `::` within `s[i .. end]`, if any.
pub open spec fn find_dc(s: Seq<u8>, i: int, end: int) -> Option<int>
    decreases end - i,
{
    if i + 2 > end {
        None
    } else if s[i] == 58 && s[i + 1] == 58 {
        Some(i)
    } else {
        find_dc(s, i + 1, end)
    }
}

/// The address made of eight 16-bit groups.
pub open spec fn groups_to_ipv6(g: Seq<u16>) -> Ipv6Address
    recommends
        g.len() == 8,
{
    Ipv6Address {
        s0: g[0],
        s1: g[1],
        s2: g[2],
        s3: g[3],
        s4: g[4],
        s5: g[5],
        s6: g[6],
        s7: g[7],
    }
}

/// An IPv6 literal occupying exactly `s[i .. end]`: either eight groups with
/// no `::`, or a head and a tail of together at most seven groups around one
/// `::` that stands for the missing zero groups.
pub open spec fn parse_ipv6_range(s: Seq<u8>, i: int, end: int) -> Option<Ipv6Address> {
    match find_dc(s, i, end) {
        None => match parse_groups(s, i, end, 8, true) {
            None => None,
            Some(g) => if g.len() == 8 {
                Some(groups_to_ipv6(g))
            } else {
                None
            },
        },
        Some(k) => match parse_groups(s, i, k, 7, false) {
            None => None,
            Some(head) => match parse_groups(s, k + 2, end, 7 - head.len(), true) {
                None => None,
                Some(tail) => Some(
                    groups_to_ipv6(
                        head + Seq::new((8 - head.len() - tail.len()) as nat, |x: int| 0u16)
                            + tail,
                    ),
                ),
            },
        },
    }
}

/// An IP literal of either family occupying exactly `s[i .. end]`.
pub open spec fn parse_ip_range(s: Seq<u8>, i: int, end: int) -> Option<IpAddress> {
    if parse_ipv4_range(s, i, end) is Some {
        Some(IpAddress::V4(parse_ipv4_range(s, i, end)->Some_0))
    } else if parse_ipv6_range(s, i, end) is Some {
        Some(IpAddress::V6(parse_ipv6_range(s, i, end)->Some_0))
    } else {
        None
    }
}

/// What a whole byte string denotes as an IP literal.
pub open spec fn parse_ip_spec(s: Seq<u8>) -> Option<IpAddress> {
    parse_ip_range(s, 0, s.len() as int)
}

/// A found `::` lies within the searched range.
proof fn lemma_find_dc_bounds(s: Seq<u8>, i: int, end: int)
    requires
        find_dc(s, i, end) is Some,
    ensures
        i <= find_dc(s, i, end)->Some_0,
        find_dc(s, i, end)->Some_0 + 2 <= end,
    decreases end - i,
{
    if i + 2 > end {
    } else if s[i] == 58 && s[i + 1] == 58 {
    } else {
        lemma_find_dc_bounds(s, i + 1, end);
    }
}

/// A parsed run of groups never exceeds its allowance.
proof fn lemma_groups_len(s: Seq<u8>, i: int, end: int, max: int, allow_v4: bool)
    requires
        parse_groups(s, i, end, max, allow_v4) is Some,
    ensures
        parse_groups(s, i, end, max, allow_v4)->Some_0.len() <= max || i == end,
    decreases max,
{
    if i == end {
    } else if max <= 0 {
    } else if allow_v4 && max >= 2 && parse_ipv4_range(s, i, end) is Some {
    } else {
        match parse_h16_at(s, i, end) {
            None => {},
            Some((g, j)) => {
                if j == end {
                } else if j + 1 < end && s[j] == 58 && s[j + 1] != 58 {
                    lemma_groups_len(s, j + 1, end, max - 1, allow_v4);
                }
            },
        }
    }
}

/// Executable hexadecimal-digit test.
fn is_hex(b: u8) -> (r: bool)
    ensures
        r == is_hex_digit(b),
{
    (48 <= b && b <= 57) || (97 <= b && b <= 102) || (65 <= b && b <= 70)
}

/// Executable hexadecimal-digit value.
fn hexv(b: u8) -> (r: u16)
    requires
        is_hex_digit(b),
    ensures
        r as int == hex_val(b),
{
    if 48 <= b && b <= 57 {
        (b - 48) as u16
    } else if 97 <= b && b <= 102 {
        (b - 87) as u16
    } else {
        (b - 55) as u16
    }
}

/// Executable form of [`parse_h16_at`].
fn h16_at(s: &[u8], i: usize, end: usize) -> (r: Option<(u16, usize)>)
    requires
        i <= end <= s@.len(),
    ensures
        match r {
            None => parse_h16_at(s@, i as int, end as int) is None,
            Some((v, j)) => parse_h16_at(s@, i as int, end as int) == Some((v, j as int)),
        },
{
    if i < end && is_hex(s[i]) {
        if i + 1 < end && is_hex(s[i + 1]) {
            if i + 2 < end && is_hex(s[i + 2]) {
                if i + 3 < end && is_hex(s[i + 3]) {
                    Some(
                        (
                            hexv(s[i]) * 4096 + hexv(s[i + 1]) * 256 + hexv(s[i + 2]) * 16 + hexv(
                                s[i + 3],
                            ),
                            i + 4,
                        ),
                    )
                } else {
                    Some((hexv(s[i]) * 256 + hexv(s[i + 1]) * 16 + hexv(s[i + 2]), i + 3))
                }
            } else {
                Some((hexv(s[i]) * 16 + hexv(s[i + 1]), i + 2))
            }
        } else {
            Some((hexv(s[i]), i + 1))
        }
    } else {
        None
    }
}

/// Executable form of [`find_dc`].
fn find_dc_at(s: &[u8], i: usize, end: usize) -> (r: Option<usize>)
    requires
        i <= end <= s@.len(),
    ensures
        match r {
            None => find_dc(s@, i as int, end as int) is None,
            Some(k) => find_dc(s@, i as int, end as int) == Some(k as int),
        },
    decreases end - i,
{
    if end < 2 || i > end - 2 {
        None
    } else if s[i] == 58 && s[i + 1] == 58 {
        Some(i)
    } else {
        find_dc_at(s, i + 1, end)
    }
}

/// Executable form of [`parse_groups`].
fn groups_at(s: &[u8], i: usize, end: usize, max: u8, allow_v4: bool) -> (r: Option<Vec<u16>>)
    requires
        i <= end <= s@.len(),
    ensures
        match r {
            None => parse_groups(s@, i as int, end as int, max as int, allow_v4) is None,
            Some(v) => parse_groups(s@, i as int, end as int, max as int, allow_v4) == Some(v@),
        },
    decreases max,
{
    if i == end {
        let v: Vec<u16> = Vec::new();
        proof {
            assert(v@ =~= Seq::<u16>::empty());
        }
        return Some(v);
    }
    if max == 0 {
        return None;
    }
    if allow_v4 && max >= 2 {
        if let Some(a) = parse_ipv4(s, i, end) {
            let mut v: Vec<u16> = Vec::new();
            v.push((a.o0 as u16) * 256 + (a.o1 as u16));
            v.push((a.o2 as u16) * 256 + (a.o3 as u16));
            proof {
                assert(v@ =~= v4_groups(a));
            }
            return Some(v);
        }
    }
    match h16_at(s, i, end) {
        None => None,
        Some((g, j)) => {
            if j == end {
                let mut v: Vec<u16> = Vec::new();
                v.push(g);
                proof {
                    assert(v@ =~= seq![g]);
                }
                Some(v)
            } else if j + 1 < end && s[j] == 58 && s[j + 1] != 58 {
                match groups_at(s, j + 1, end, max - 1, allow_v4) {
                    None => None,
                    Some(rest) => {
                        let ghost rest0 = rest@;
                        let mut rest = rest;
                        rest.insert(0, g);
                        proof {
                            assert(rest@ =~= seq![g] + rest0);
                        }
                        Some(rest)
                    },
                }
            } else {
                None
            }
        },
    }
}

/// The address made of eight 16-bit groups held in a vector.
fn vec8_to_ipv6(g: &Vec<u16>) -> (r: Ipv6Address)
    requires
        g@.len() == 8,
    ensures
        r == groups_to_ipv6(g@),
{
    Ipv6Address {
        s0: g[0],
        s1: g[1],
        s2: g[2],
        s3: g[3],
        s4: g[4],
        s5: g[5],
        s6: g[6],
        s7: g[7],
    }
}

/// Parse `s[i .. end]` as an IPv6 literal.
pub fn parse_ipv6(s: &[u8], i: usize, end: usize) -> (r: Option<Ipv6Address>)
    requires
        i <= end <= s@.len(),
    ensures
        r == parse_ipv6_range(s@, i as int, end as int),
{
    match find_dc_at(s, i, end) {
        None => {
            match groups_at(s, i, end, 8, true) {
                None => None,
                Some(g) => if g.len() == 8 {
                    Some(vec8_to_ipv6(&g))
                } else {
                    None
                },
            }
        },
        Some(k) => {
            proof {
                lemma_find_dc_bounds(s@, i as int, end as int);
            }
            match groups_at(s, i, k, 7, false) {
                None => None,
                Some(head) => {
                    proof {
                        lemma_groups_len(s@, i as int, k as int, 7, false);
                    }
                    let hlen = head.len();
                    match groups_at(s, k + 2, end, (7 - hlen) as u8, true) {
                        None => None,
                        Some(tail) => {
                            proof {
                                lemma_groups_len(
                                    s@,
                                    k as int + 2,
                                    end as int,
                                    7 - hlen as int,
                                    true,
                                );
                            }
                            let ghost headseq = head@;
                            let ghost tailseq = tail@;
                            let zeros: usize = 8 - head.len() - tail.len();
                            let mut full = head;
                            let mut z: usize = 0;
                            while z < zeros
                                invariant
                                    z <= zeros,
                                    full@ =~= headseq + Seq::new(z as nat, |x: int| 0u16),
                                decreases zeros - z,
                            {
                                full.push(0);
                                z = z + 1;
                                proof {
                                    assert(full@ =~= headseq + Seq::new(z as nat, |x: int| 0u16));
                                }
                            }
                            let mut t: usize = 0;
                            while t < tail.len()
                                invariant
                                    t <= tailseq.len(),
                                    tail@ == tailseq,
                                    full@ =~= headseq + Seq::new(zeros as nat, |x: int| 0u16)
                                        + tailseq.subrange(0, t as int),
                                decreases tailseq.len() - t,
                            {
                                full.push(tail[t]);
                                t = t + 1;
                                proof {
                                    assert(full@ =~= headseq + Seq::new(zeros as nat, |x: int| 0u16)
                                        + tailseq.subrange(0, t as int));
                                }
                            }
                            proof {
                                assert(tailseq.subrange(0, tailseq.len() as int) =~= tailseq);
                            }
                            Some(vec8_to_ipv6(&full))
                        },
                    }
                },
            }
        },
    }
}

/// Parse `s[i .. end]` as an IP literal of either family.
pub fn parse_ip(s: &[u8], i: usize, end: usize) -> (r: Option<IpAddress>)
    requires
        i <= end <= s@.len(),
    ensures
        r == parse_ip_range(s@, i as int, end as int),
{
    if let Some(a) = parse_ipv4(s, i, end) {
        Some(IpAddress::V4(a))
    } else if let Some(a) = parse_ipv6(s, i, end) {
        Some(IpAddress::V6(a))
    } else {
        None
    }
}

/// ASCII whitespace: space, tab, line feed, vertical tab, form feed,
/// carriage return.
pub open spec fn is_ascii_ws(b: u8) -> bool {
    b == 32 || (9 <= b <= 13)
}

/// Position of the first byte at or after `i` that is not whitespace, or the
/// length of `s` when all of them are.
pub open spec fn first_non_ws(s: Seq<u8>, i: int) -> int
    decreases s.len() - i,
{
    if i < 0 || i >= s.len() {
        i
    } else if is_ascii_ws(s[i]) {
        first_non_ws(s, i + 1)
    } else {
        i
    }
}

/// Position just past the last byte before `end` (and at or after `lo`) that
/// is not whitespace, or `lo` when all of them are.
pub open spec fn last_non_ws_end(s: Seq<u8>, lo: int, end: int) -> int
    decreases end - lo,
{
    if end <= lo {
        lo
    } else if is_ascii_ws(s[end - 1]) {
        last_non_ws_end(s, lo, end - 1)
    } else {
        end
    }
}

/// The string with leading and trailing ASCII whitespace removed.
pub open spec fn trim_spec(s: Seq<u8>) -> Seq<u8> {
    let lo = first_non_ws(s, 0);
    let hi = last_non_ws_end(s, lo, s.len() as int);
    s.subrange(lo, hi)
}

/// Executable whitespace test.
fn is_ws(b: u8) -> (r: bool)
    ensures
        r == is_ascii_ws(b),
{
    b == 32 || (9 <= b && b <= 13)
}

/// The slice with leading and trailing ASCII whitespace removed.
pub fn trim_bytes<'a>(s: &'a [u8]) -> (r: &'a [u8])
    ensures
        r@ == trim_spec(s@),
{
    let mut lo: usize = 0;
    while lo < s.len() && is_ws(s[lo])
        invariant
            lo <= s@.len(),
            first_non_ws(s@, 0) == first_non_ws(s@, lo as int),
        decreases s@.len() - lo,
    {
        lo = lo + 1;
    }
    assert(first_non_ws(s@, 0) == lo as int);
    let mut hi: usize = s.len();
    while hi > lo && is_ws(s[hi - 1])
        invariant
            lo <= hi <= s@.len(),
            last_non_ws_end(s@, lo as int, s@.len() as int) == last_non_ws_end(
                s@,
                lo as int,
                hi as int,
            ),
        decreases hi,
    {
        hi = hi - 1;
    }
    assert(last_non_ws_end(s@, lo as int, s@.len() as int) == hi as int);
    slice_subrange(s, lo, hi)
}

/// An octet starts and ends with a decimal digit.
proof fn lemma_octet_ends(s: Seq<u8>, i: int, end: int)
    requires
        parse_octet_at(s, i, end) is Some,
    ensures
        i < parse_octet_at(s, i, end)->Some_0.1 <= end,
        is_dec_digit(s[i]),
        is_dec_digit(s[parse_octet_at(s, i, end)->Some_0.1 - 1]),
{
}

/// A 16-bit group starts and ends with a hexadecimal digit.
proof fn lemma_h16_ends(s: Seq<u8>, i: int, end: int)
    requires
        parse_h16_at(s, i, end) is Some,
    ensures
        i < parse_h16_at(s, i, end)->Some_0.1 <= end,
        is_hex_digit(s[i]),
        is_hex_digit(s[parse_h16_at(s, i, end)->Some_0.1 - 1]),
{
}

/// An IPv4 literal is nonempty and starts and ends with a decimal digit.
proof fn lemma_ipv4_ends(s: Seq<u8>, i: int, end: int)
    requires
        parse_ipv4_range(s, i, end) is Some,
    ensures
        i < end,
        is_dec_digit(s[i]),
        is_dec_digit(s[end - 1]),
{
    let j0 = parse_octet_at(s, i, end)->Some_0.1;
    lemma_octet_ends(s, i, end);
    let j1 = parse_octet_at(s, j0 + 1, end)->Some_0.1;
    lemma_octet_ends(s, j0 + 1, end);
    let j2 = parse_octet_at(s, j1 + 1, end)->Some_0.1;
    lemma_octet_ends(s, j1 + 1, end);
    lemma_octet_ends(s, j2 + 1, end);
}

/// A nonempty run of groups starts and ends with something other than
/// whitespace (a digit of either base at each end).
proof fn lemma_groups_ends(s: Seq<u8>, i: int, end: int, max: int, allow_v4: bool)
    requires
        parse_groups(s, i, end, max, allow_v4) is Some,
        i < end,
    ensures
        !is_ascii_ws(s[i]),
        !is_ascii_ws(s[end - 1]),
    decreases max,
{
    if allow_v4 && max >= 2 && parse_ipv4_range(s, i, end) is Some {
        lemma_ipv4_ends(s, i, end);
    } else {
        let (g, j) = parse_h16_at(s, i, end)->Some_0;
        lemma_h16_ends(s, i, end);
        if j == end {
        } else {
            lemma_groups_ends(s, j + 1, end, max - 1, allow_v4);
        }
    }
}

/// A found `::` really stands at the found position.
proof fn lemma_find_dc_found(s: Seq<u8>, i: int, end: int)
    requires
        find_dc(s, i, end) is Some,
    ensures
        s[find_dc(s, i, end)->Some_0] == 58,
        s[find_dc(s, i, end)->Some_0 + 1] == 58,
    decreases end - i,
{
    if i + 2 > end {
    } else if s[i] == 58 && s[i + 1] == 58 {
    } else {
        lemma_find_dc_found(s, i + 1, end);
    }
}

/// An IP literal of either family is nonempty and starts and ends with
/// something other than whitespace.
proof fn lemma_ip_ends(s: Seq<u8>, i: int, end: int)
    requires
        parse_ip_range(s, i, end) is Some,
    ensures
        i < end,
        !is_ascii_ws(s[i]),
        !is_ascii_ws(s[end - 1]),
{
    if parse_ipv4_range(s, i, end) is Some {
        lemma_ipv4_ends(s, i, end);
    } else {
        match find_dc(s, i, end) {
            None => {
                lemma_groups_ends(s, i, end, 8, true);
            },
            Some(k) => {
                lemma_find_dc_bounds(s, i, end);
                lemma_find_dc_found(s, i, end);
                if i < k {
                    lemma_groups_ends(s, i, k, 7, false);
                }
                if k + 2 < end {
                    let head = parse_groups(s, i, k, 7, false)->Some_0;
                    lemma_groups_ends(s, k + 2, end, 7 - head.len(), true);
                }
            },
        }
    }
}

/// All-whitespace bytes before a non-whitespace stop are skipped.
proof fn lemma_first_non_ws_skips(s: Seq<u8>, i: int, m: int)
    requires
        0 <= i <= m <= s.len(),
        forall|j: int| i <= j < m ==> is_ascii_ws(s[j]),
        m == s.len() || !is_ascii_ws(s[m]),
    ensures
        first_non_ws(s, i) == m,
    decreases m - i,
{
    if i < m {
        lemma_first_non_ws_skips(s, i + 1, m);
    }
}

/// All-whitespace bytes after a non-whitespace stop are dropped.
proof fn lemma_last_non_ws_skips(s: Seq<u8>, lo: int, m: int, end: int)
    requires
        0 <= lo <= m <= end <= s.len(),
        forall|j: int| m <= j < end ==> is_ascii_ws(s[j]),
        m == lo || !is_ascii_ws(s[m - 1]),
    ensures
        last_non_ws_end(s, lo, end) == m,
    decreases end - m,
{
    if m < end {
        lemma_last_non_ws_skips(s, lo, m, end - 1);
    }
}

/// Law: surrounding whitespace changes nothing. For every byte string that
/// is a valid IP literal, a text made of that literal with any whitespace
/// before and after it trims back to the literal, so the detectors parse it
/// to exactly the literal's address.
pub proof fn lemma_trim_parse_padded(s: Seq<u8>, pre: Seq<u8>, post: Seq<u8>)
    requires
        parse_ip_spec(s) is Some,
        forall|i: int| 0 <= i < pre.len() ==> is_ascii_ws(#[trigger] pre[i]),
        forall|i: int| 0 <= i < post.len() ==> is_ascii_ws(#[trigger] post[i]),
    ensures
        trim_spec(pre + s + post) == s,
        parse_ip_spec(trim_spec(pre + s + post)) == parse_ip_spec(s),
{
    lemma_ip_ends(s, 0, s.len() as int);
    let t = pre + s + post;
    let lo = pre.len() as int;
    let hi = pre.len() + s.len();
    assert(forall|j: int| 0 <= j < lo ==> is_ascii_ws(#[trigger] t[j]));
    assert(!is_ascii_ws(t[lo]));
    assert(forall|j: int| hi <= j < t.len() ==> is_ascii_ws(#[trigger] t[j]));
    assert(!is_ascii_ws(t[hi - 1]));
    lemma_first_non_ws_skips(t, 0, lo);
    lemma_last_non_ws_skips(t, lo, hi as int, t.len() as int);
    assert(trim_spec(t) =~= s);
}

/// Trim a byte string and parse what remains as an IP literal.
pub fn parse_ip_trimmed(s: &[u8]) -> (r: Option<IpAddress>)
    ensures
        r == parse_ip_spec(trim_spec(s@)),
{
    let t = trim_bytes(s);
    parse_ip(t, 0, t.len())
}

} // verus!
