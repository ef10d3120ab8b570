//! Reading an IP address from its text.
//!
//! An IPv4 literal is four decimal octets joined by dots; an octet has one to
//! three digits and no leading zero. An IPv6 literal is eight groups of one to
//! four hexadecimal digits joined by colons, where one run of zero groups may
//! be written `::` and the last two groups may be written as an IPv4 literal.
//! The whole text must be used up.

use vstd::prelude::*;
use crate::bytes_text::{decimal, digit_byte};
use crate::net::{IpAddress, Ipv4Address, Ipv6Address};

verus! {

pub const DOT: u8 = 46;

pub const COLON: u8 = 58;

/// The byte at `i`, if `i` is inside `s`.
pub open spec fn byte_at(s: Seq<u8>, i: int) -> Option<u8> {
    if 0 <= i < s.len() {
        Some(s[i])
    } else {
        None
    }
}

/// Something read from a text, with the position behind it.
pub struct Step<T> {
    pub value: T,
    pub next: int,
}

/// Something read from a text by running code, with the position behind it.
pub struct Taken<T> {
    pub value: T,
    pub next: usize,
}

/// The value of an ASCII decimal digit.
pub open spec fn dec_digit(b: Option<u8>) -> Option<nat> {
    match b {
        Some(c) => if 48 <= c <= 57 {
            Some((c - 48) as nat)
        } else {
            None
        },
        None => None,
    }
}

/// The value of an ASCII hexadecimal digit of either case.
pub open spec fn hex_digit(b: Option<u8>) -> Option<nat> {
    match b {
        Some(c) => if 48 <= c <= 57 {
            Some((c - 48) as nat)
        } else if 97 <= c <= 102 {
            Some((c - 87) as nat)
        } else if 65 <= c <= 70 {
            Some((c - 55) as nat)
        } else {
            None
        },
        None => None,
    }
}

/// The decimal octet that starts at `pos`, with the position behind it: the
/// longest run of digits there, if it has at most three digits, no leading
/// zero and a value of at most 255.
pub open spec fn dec_octet_at(s: Seq<u8>, pos: int) -> Option<Step<u8>> {
    let d0 = dec_digit(byte_at(s, pos));
    let d1 = dec_digit(byte_at(s, pos + 1));
    let d2 = dec_digit(byte_at(s, pos + 2));
    let d3 = dec_digit(byte_at(s, pos + 3));
    if d0 is None {
        None
    } else if d1 is None {
        Some(Step { value: d0->0 as u8, next: pos + 1 })
    } else if d0->0 == 0 {
        None
    } else if d2 is None {
        Some(Step { value: (d0->0 * 10 + d1->0) as u8, next: pos + 2 })
    } else if d3 is Some || d0->0 * 100 + d1->0 * 10 + d2->0 > 255 {
        None
    } else {
        Some(Step { value: (d0->0 * 100 + d1->0 * 10 + d2->0) as u8, next: pos + 3 })
    }
}

/// The octet that follows a dot at `pos`.
pub open spec fn dotted_octet_at(s: Seq<u8>, pos: int) -> Option<Step<u8>> {
    if byte_at(s, pos) == Some(DOT) {
        dec_octet_at(s, pos + 1)
    } else {
        None
    }
}

/// The dotted IPv4 address that starts at `pos`, with the position behind it.
pub open spec fn ipv4_at(s: Seq<u8>, pos: int) -> Option<Step<Ipv4Address>> {
    let a = dec_octet_at(s, pos);
    if a is None {
        None
    } else {
        let b = dotted_octet_at(s, a->0.next);
        if b is None {
            None
        } else {
            let c = dotted_octet_at(s, b->0.next);
            if c is None {
                None
            } else {
                let d = dotted_octet_at(s, c->0.next);
                if d is None {
                    None
                } else {
                    Some(
                        Step {
                            value: Ipv4Address {
                                octets: [a->0.value, b->0.value, c->0.value, d->0.value],
                            },
                            next: d->0.next,
                        },
                    )
                }
            }
        }
    }
}

/// The hexadecimal group that starts at `pos`, with the position behind it:
/// the longest run of hexadecimal digits there, if it has at most four.
pub open spec fn hex_group_at(s: Seq<u8>, pos: int) -> Option<Step<u16>> {
    let h0 = hex_digit(byte_at(s, pos));
    let h1 = hex_digit(byte_at(s, pos + 1));
    let h2 = hex_digit(byte_at(s, pos + 2));
    let h3 = hex_digit(byte_at(s, pos + 3));
    let h4 = hex_digit(byte_at(s, pos + 4));
    if h0 is None {
        None
    } else if h1 is None {
        Some(Step { value: h0->0 as u16, next: pos + 1 })
    } else if h2 is None {
        Some(Step { value: (h0->0 * 16 + h1->0) as u16, next: pos + 2 })
    } else if h3 is None {
        Some(Step { value: (h0->0 * 256 + h1->0 * 16 + h2->0) as u16, next: pos + 3 })
    } else if h4 is None {
        Some(
            Step {
                value: (h0->0 * 4096 + h1->0 * 256 + h2->0 * 16 + h3->0) as u16,
                next: pos + 4,
            },
        )
    } else {
        None
    }
}

/// What a run of groups came to: the groups read, the position behind them,
/// and whether the run ended in a dotted IPv4 address.
pub struct GroupRun {
    pub groups: Seq<u16>,
    pub next: int,
    pub dotted: bool,
}

/// The two groups that hold an IPv4 address.
pub open spec fn groups_of_ipv4(ip: Ipv4Address) -> Seq<u16> {
    seq![
        (ip.octets[0] as nat * 256 + ip.octets[1] as nat) as u16,
        (ip.octets[2] as nat * 256 + ip.octets[3] as nat) as u16,
    ]
}

/// Reads groups joined by colons from `pos` until `limit` groups are held or
/// no further group follows. `done` holds the groups read so far. Where at
/// least two groups are still free, a dotted IPv4 address is taken first and
/// ends the run.
pub open spec fn groups_from(s: Seq<u8>, pos: int, limit: nat, done: Seq<u16>) -> GroupRun
    decreases limit - done.len(),
{
    let stop = GroupRun { groups: done, next: pos, dotted: false };
    if done.len() >= limit {
        stop
    } else if done.len() > 0 && byte_at(s, pos) != Some(COLON) {
        stop
    } else {
        let start = if done.len() > 0 {
            pos + 1
        } else {
            pos
        };
        let v4 = ipv4_at(s, start);
        let group = hex_group_at(s, start);
        if done.len() + 1 < limit && v4 is Some {
            GroupRun { groups: done + groups_of_ipv4(v4->0.value), next: v4->0.next, dotted: true }
        } else if group is Some {
            groups_from(s, group->0.next, limit, done.push(group->0.value))
        } else {
            stop
        }
    }
}

/// The address that eight groups make.
pub open spec fn ipv6_of_groups(g: Seq<u16>) -> Ipv6Address
    recommends
        g.len() == 8,
{
    Ipv6Address { segments: [g[0], g[1], g[2], g[3], g[4], g[5], g[6], g[7]] }
}

/// `n` zero groups.
pub open spec fn zero_groups(n: int) -> Seq<u16> {
    Seq::new(
        if n >= 0 {
            n as nat
        } else {
            0
        },
        |i: int| 0u16,
    )
}

/// The IPv4 address that the whole of `s` spells, if it spells one.
pub open spec fn ipv4_literal(s: Seq<u8>) -> Option<Ipv4Address> {
    let v4 = ipv4_at(s, 0);
    if v4 is Some && v4->0.next == s.len() {
        Some(v4->0.value)
    } else {
        None
    }
}

/// The IPv6 address that the whole of `s` spells, if it spells one.
pub open spec fn ipv6_literal(s: Seq<u8>) -> Option<Ipv6Address> {
    let head = groups_from(s, 0, 8, Seq::empty());
    if head.groups.len() == 8 {
        if head.next == s.len() {
            Some(ipv6_of_groups(head.groups))
        } else {
            None
        }
    } else if head.dotted {
        None
    } else if byte_at(s, head.next) != Some(COLON) || byte_at(s, head.next + 1) != Some(COLON) {
        None
    } else {
        let room = (7 - head.groups.len()) as nat;
        let tail = groups_from(s, head.next + 2, room, Seq::empty());
        if tail.next == s.len() {
            Some(
                ipv6_of_groups(
                    head.groups + zero_groups(8 - head.groups.len() - tail.groups.len())
                        + tail.groups,
                ),
            )
        } else {
            None
        }
    }
}

/// The IP address that the whole of `s` spells, if it spells one. A text that
/// starts with a dotted IPv4 address is an IPv4 literal or none at all.
pub open spec fn ip_literal(s: Seq<u8>) -> Option<IpAddress> {
    if ipv4_at(s, 0) is Some {
        match ipv4_literal(s) {
            Some(v4) => Some(IpAddress::V4(v4)),
            None => None,
        }
    } else {
        match ipv6_literal(s) {
            Some(v6) => Some(IpAddress::V6(v6)),
            None => None,
        }
    }
}

/// The dotted text of an IPv4 address: its four octets in decimal, without
/// leading zeros, joined by dots.
pub open spec fn dotted(ip: Ipv4Address) -> Seq<u8> {
    decimal(ip.octets[0] as nat) + seq![DOT] + decimal(ip.octets[1] as nat) + seq![DOT] + decimal(
        ip.octets[2] as nat,
    ) + seq![DOT] + decimal(ip.octets[3] as nat)
}

/// The decimal text of an octet has one, two or three digits.
proof fn octet_text_shape(v: u8)
    ensures
        v < 10 ==> decimal(v as nat) == seq![digit_byte(v as nat)],
        10 <= v < 100 ==> decimal(v as nat) == seq![
            digit_byte(v as nat / 10),
            digit_byte(v as nat % 10),
        ],
        100 <= v ==> decimal(v as nat) == seq![
            digit_byte(v as nat / 100),
            digit_byte(v as nat / 10 % 10),
            digit_byte(v as nat % 10),
        ],
        1 <= decimal(v as nat).len() <= 3,
{
    reveal_with_fuel(decimal, 3);
    if v < 10 {
    } else if v < 100 {
        assert(decimal(v as nat) =~= seq![digit_byte(v as nat / 10), digit_byte(v as nat % 10)]);
    } else {
        assert(v as nat / 10 / 10 == v as nat / 100);
        assert(decimal(v as nat) =~= seq![
            digit_byte(v as nat / 100),
            digit_byte(v as nat / 10 % 10),
            digit_byte(v as nat % 10),
        ]);
    }
}

/// An octet that is read at `pos` stands there in its decimal text.
proof fn read_octet_is_written(s: Seq<u8>, pos: int)
    requires
        dec_octet_at(s, pos) is Some,
    ensures
        0 <= pos < dec_octet_at(s, pos)->0.next <= s.len(),
        s.subrange(pos, dec_octet_at(s, pos)->0.next) == decimal(
            dec_octet_at(s, pos)->0.value as nat,
        ),
{
    let v = dec_octet_at(s, pos)->0.value;
    let next = dec_octet_at(s, pos)->0.next;
    octet_text_shape(v);
    assert(s.subrange(pos, next) =~= decimal(v as nat));
}

/// The decimal text of an octet that stands at `pos`, with no digit behind
/// it, is read as that octet.
proof fn written_octet_is_read(s: Seq<u8>, pos: int, v: u8)
    requires
        0 <= pos,
        pos + decimal(v as nat).len() <= s.len(),
        s.subrange(pos, pos + decimal(v as nat).len()) == decimal(v as nat),
        dec_digit(byte_at(s, pos + decimal(v as nat).len())) is None,
    ensures
        dec_octet_at(s, pos) == Some(Step { value: v, next: pos + decimal(v as nat).len() }),
{
    octet_text_shape(v);
    let text = decimal(v as nat);
    let part = s.subrange(pos, pos + text.len());
    assert(part[0] == s[pos]);
    if text.len() >= 2 {
        assert(part[1] == s[pos + 1]);
    }
    if text.len() >= 3 {
        assert(part[2] == s[pos + 2]);
    }
}

/// An IPv4 address that is read at `pos` stands there in its dotted text.
pub proof fn read_ipv4_is_written(s: Seq<u8>, pos: int)
    requires
        ipv4_at(s, pos) is Some,
    ensures
        0 <= pos < ipv4_at(s, pos)->0.next <= s.len(),
        s.subrange(pos, ipv4_at(s, pos)->0.next) == dotted(ipv4_at(s, pos)->0.value),
{
    let a = dec_octet_at(s, pos)->0;
    let b = dotted_octet_at(s, a.next)->0;
    let c = dotted_octet_at(s, b.next)->0;
    let d = dotted_octet_at(s, c.next)->0;
    read_octet_is_written(s, pos);
    read_octet_is_written(s, a.next + 1);
    read_octet_is_written(s, b.next + 1);
    read_octet_is_written(s, c.next + 1);
    let ip = ipv4_at(s, pos)->0.value;
    assert(ip.octets[0] == a.value && ip.octets[1] == b.value && ip.octets[2] == c.value
        && ip.octets[3] == d.value);
    assert(s.subrange(pos, d.next) =~= s.subrange(pos, a.next) + seq![DOT] + s.subrange(
        a.next + 1,
        b.next,
    ) + seq![DOT] + s.subrange(b.next + 1, c.next) + seq![DOT] + s.subrange(c.next + 1, d.next));
}

/// Where the decimal text of an octet, a dot and more text stand at `pos`,
/// the octet is read, the dot follows it, and the rest stands behind the dot.
proof fn leading_octet_is_read(s: Seq<u8>, pos: int, v: u8, rest: Seq<u8>)
    requires
        0 <= pos,
        pos + decimal(v as nat).len() + 1 + rest.len() <= s.len(),
        s.subrange(pos, pos + decimal(v as nat).len() + 1 + rest.len()) == decimal(v as nat)
            + seq![DOT] + rest,
    ensures
        dec_octet_at(s, pos) == Some(Step { value: v, next: pos + decimal(v as nat).len() }),
        byte_at(s, pos + decimal(v as nat).len()) == Some(DOT),
        s.subrange(
            pos + decimal(v as nat).len() + 1,
            pos + decimal(v as nat).len() + 1 + rest.len(),
        ) == rest,
{
    let text = decimal(v as nat);
    let whole = text + seq![DOT] + rest;
    let len = text.len() as int;
    assert forall|i: int| 0 <= i < whole.len() implies s[pos + i] == #[trigger] whole[i] by {
        assert(s.subrange(pos, pos + whole.len())[i] == s[pos + i]);
    }
    assert(s.subrange(pos, pos + len) =~= text) by {
        assert forall|i: int| 0 <= i < len implies s[pos + i] == text[i] by {
            assert(whole[i] == text[i]);
        }
    }
    assert(s[pos + len] == DOT) by {
        assert(whole[len] == DOT);
    }
    assert(s.subrange(pos + len + 1, pos + len + 1 + rest.len()) =~= rest) by {
        assert forall|i: int| 0 <= i < rest.len() implies s[pos + len + 1 + i] == rest[i] by {
            assert(whole[len + 1 + i] == rest[i]);
        }
    }
    written_octet_is_read(s, pos, v);
}

/// The dotted text of an IPv4 address that stands at `pos`, with no digit
/// behind it, is read as that address.
pub proof fn written_ipv4_is_read(s: Seq<u8>, pos: int, ip: Ipv4Address)
    requires
        0 <= pos,
        pos + dotted(ip).len() <= s.len(),
        s.subrange(pos, pos + dotted(ip).len()) == dotted(ip),
        dec_digit(byte_at(s, pos + dotted(ip).len())) is None,
    ensures
        ipv4_at(s, pos) == Some(Step { value: ip, next: pos + dotted(ip).len() }),
{
    let ta = decimal(ip.octets[0] as nat);
    let tb = decimal(ip.octets[1] as nat);
    let tc = decimal(ip.octets[2] as nat);
    let td = decimal(ip.octets[3] as nat);
    let dot = seq![DOT];
    let rest_c = tc + dot + td;
    let rest_b = tb + dot + rest_c;
    assert(dotted(ip) =~= ta + dot + rest_b);
    let at_b = pos + ta.len() + 1;
    let at_c = at_b + tb.len() + 1;
    let at_d = at_c + tc.len() + 1;
    leading_octet_is_read(s, pos, ip.octets[0], rest_b);
    leading_octet_is_read(s, at_b, ip.octets[1], rest_c);
    leading_octet_is_read(s, at_c, ip.octets[2], td);
    written_octet_is_read(s, at_d, ip.octets[3]);
    assert(dotted_octet_at(s, at_b - 1) == Some(
        Step { value: ip.octets[1], next: at_b + tb.len() },
    ));
    assert(dotted_octet_at(s, at_c - 1) == Some(
        Step { value: ip.octets[2], next: at_c + tc.len() },
    ));
    assert(dotted_octet_at(s, at_d - 1) == Some(
        Step { value: ip.octets[3], next: at_d + td.len() },
    ));
    let got = ipv4_at(s, pos)->0.value;
    assert(got.octets@ =~= ip.octets@);
    assert(got.octets == ip.octets);
}

/// The dotted text of an IPv4 address is read as that address, and it is
/// the only text that is.
pub proof fn ipv4_literal_is_the_dotted_text(s: Seq<u8>, ip: Ipv4Address)
    ensures
        ipv4_literal(s) == Some(ip) <==> s == dotted(ip),
{
    if ipv4_literal(s) == Some(ip) {
        read_ipv4_is_written(s, 0);
        assert(s.subrange(0, s.len() as int) =~= s);
    }
    if s == dotted(ip) {
        assert(s.subrange(0, s.len() as int) =~= s);
        written_ipv4_is_read(s, 0, ip);
    }
}

fn peek(s: &[u8], pos: usize) -> (b: Option<u8>)
    ensures
        b == byte_at(s@, pos as int),
{
    if pos < s.len() {
        Some(s[pos])
    } else {
        None
    }
}

fn peek_dec(s: &[u8], pos: usize) -> (d: Option<u8>)
    ensures
        d is Some <==> dec_digit(byte_at(s@, pos as int)) is Some,
        d is Some ==> d->0 == dec_digit(byte_at(s@, pos as int))->0 && d->0 <= 9 && pos < s.len(),
{
    match peek(s, pos) {
        Some(c) => if 48 <= c && c <= 57 {
            Some(c - 48)
        } else {
            None
        },
        None => None,
    }
}

fn peek_hex(s: &[u8], pos: usize) -> (d: Option<u16>)
    ensures
        d is Some <==> hex_digit(byte_at(s@, pos as int)) is Some,
        d is Some ==> d->0 == hex_digit(byte_at(s@, pos as int))->0 && d->0 <= 15 && pos < s.len(),
{
    match peek(s, pos) {
        Some(c) => if 48 <= c && c <= 57 {
            Some((c - 48) as u16)
        } else if 97 <= c && c <= 102 {
            Some((c - 87) as u16)
        } else if 65 <= c && c <= 70 {
            Some((c - 55) as u16)
        } else {
            None
        },
        None => None,
    }
}

fn read_dec_octet(s: &[u8], pos: usize) -> (r: Option<Taken<u8>>)
    requires
        pos <= s.len(),
    ensures
        r is Some <==> dec_octet_at(s@, pos as int) is Some,
        r is Some ==> dec_octet_at(s@, pos as int) == Some(Step { value: r->0.value, next: r->0.next as int }) && pos
            < r->0.next <= s.len(),
{
    let d0 = match peek_dec(s, pos) {
        Some(d) => d,
        None => {
            return None;
        },
    };
    let d1 = match peek_dec(s, pos + 1) {
        Some(d) => d,
        None => {
            return Some(Taken { value: d0, next: pos + 1 });
        },
    };
    if d0 == 0 {
        return None;
    }
    let d2 = match peek_dec(s, pos + 2) {
        Some(d) => d,
        None => {
            return Some(Taken { value: d0 * 10 + d1, next: pos + 2 });
        },
    };
    if peek_dec(s, pos + 3).is_some() {
        return None;
    }
    let value: u16 = d0 as u16 * 100 + d1 as u16 * 10 + d2 as u16;
    if value > 255 {
        return None;
    }
    Some(Taken { value: value as u8, next: pos + 3 })
}

fn read_dotted_octet(s: &[u8], pos: usize) -> (r: Option<Taken<u8>>)
    requires
        pos <= s.len(),
    ensures
        r is Some <==> dotted_octet_at(s@, pos as int) is Some,
        r is Some ==> dotted_octet_at(s@, pos as int) == Some(Step { value: r->0.value, next: r->0.next as int }) && pos
            < r->0.next <= s.len(),
{
    match peek(s, pos) {
        Some(c) => if c == DOT {
            read_dec_octet(s, pos + 1)
        } else {
            None
        },
        None => None,
    }
}

fn read_ipv4(s: &[u8], pos: usize) -> (r: Option<Taken<Ipv4Address>>)
    requires
        pos <= s.len(),
    ensures
        r is Some <==> ipv4_at(s@, pos as int) is Some,
        r is Some ==> ipv4_at(s@, pos as int) == Some(Step { value: r->0.value, next: r->0.next as int }) && pos < r->0.next
            <= s.len(),
{
    let a = match read_dec_octet(s, pos) {
        Some(x) => x,
        None => {
            return None;
        },
    };
    let b = match read_dotted_octet(s, a.next) {
        Some(x) => x,
        None => {
            return None;
        },
    };
    let c = match read_dotted_octet(s, b.next) {
        Some(x) => x,
        None => {
            return None;
        },
    };
    let d = match read_dotted_octet(s, c.next) {
        Some(x) => x,
        None => {
            return None;
        },
    };
    let ip = Ipv4Address::new(a.value, b.value, c.value, d.value);
    proof {
        let want = ipv4_at(s@, pos as int)->0.value;
        assert(ip.octets@ =~= want.octets@);
        assert(ip.octets == want.octets);
    }
    Some(Taken { value: ip, next: d.next })
}

fn read_hex_group(s: &[u8], pos: usize) -> (r: Option<Taken<u16>>)
    requires
        pos <= s.len(),
    ensures
        r is Some <==> hex_group_at(s@, pos as int) is Some,
        r is Some ==> hex_group_at(s@, pos as int) == Some(Step { value: r->0.value, next: r->0.next as int }) && pos
            < r->0.next <= s.len(),
{
    let h0 = match peek_hex(s, pos) {
        Some(d) => d,
        None => {
            return None;
        },
    };
    let h1 = match peek_hex(s, pos + 1) {
        Some(d) => d,
        None => {
            return Some(Taken { value: h0, next: pos + 1 });
        },
    };
    let h2 = match peek_hex(s, pos + 2) {
        Some(d) => d,
        None => {
            return Some(Taken { value: h0 * 16 + h1, next: pos + 2 });
        },
    };
    let h3 = match peek_hex(s, pos + 3) {
        Some(d) => d,
        None => {
            return Some(Taken { value: h0 * 256 + h1 * 16 + h2, next: pos + 3 });
        },
    };
    if peek_hex(s, pos + 4).is_some() {
        return None;
    }
    Some(Taken { value: h0 * 4096 + h1 * 256 + h2 * 16 + h3, next: pos + 4 })
}

/// The run of groups that starts at `pos`, as `groups_from` defines it.
fn read_groups(s: &[u8], pos: usize, limit: usize) -> (r: (Vec<u16>, usize, bool))
    requires
        pos <= s.len(),
        limit <= 8,
    ensures
        groups_from(s@, pos as int, limit as nat, Seq::empty()) == (GroupRun {
            groups: r.0@,
            next: r.1 as int,
            dotted: r.2,
        }),
        r.0@.len() <= limit,
        pos <= r.1 <= s.len(),
{
    let mut groups: Vec<u16> = Vec::new();
    let mut at: usize = pos;
    while groups.len() < limit
        invariant
            limit <= 8,
            groups@.len() <= limit,
            pos <= at <= s.len(),
            groups_from(s@, pos as int, limit as nat, Seq::empty()) == groups_from(
                s@,
                at as int,
                limit as nat,
                groups@,
            ),
        decreases limit - groups.len(),
    {
        let mut start: usize = at;
        if groups.len() > 0 {
            match peek(s, at) {
                Some(c) => {
                    if c != COLON {
                        return (groups, at, false);
                    }
                },
                None => {
                    return (groups, at, false);
                },
            }
            start = at + 1;
        }
        if groups.len() + 1 < limit {
            if let Some(v4) = read_ipv4(s, start) {
                let ip = v4.value;
                let hi: u16 = ip.octets[0] as u16 * 256 + ip.octets[1] as u16;
                let lo: u16 = ip.octets[2] as u16 * 256 + ip.octets[3] as u16;
                let ghost before = groups@;
                groups.push(hi);
                groups.push(lo);
                assert(groups@ =~= before + groups_of_ipv4(ip));
                return (groups, v4.next, true);
            }
        }
        match read_hex_group(s, start) {
            Some(group) => {
                groups.push(group.value);
                at = group.next;
            },
            None => {
                return (groups, at, false);
            },
        }
    }
    (groups, at, false)
}

/// Reads `s` as an IPv4 literal.
pub fn parse_ipv4_literal(s: &[u8]) -> (r: Option<Ipv4Address>)
    ensures
        r == ipv4_literal(s@),
{
    match read_ipv4(s, 0) {
        Some(v4) => if v4.next == s.len() {
            Some(v4.value)
        } else {
            None
        },
        None => None,
    }
}

/// Reads `s` as an IPv6 literal.
pub fn parse_ipv6_literal(s: &[u8]) -> (r: Option<Ipv6Address>)
    ensures
        r == ipv6_literal(s@),
{
    let (head, mid, dotted) = read_groups(s, 0, 8);
    if head.len() == 8 {
        if mid != s.len() {
            return None;
        }
        let ip = Ipv6Address::new(
            head[0],
            head[1],
            head[2],
            head[3],
            head[4],
            head[5],
            head[6],
            head[7],
        );
        proof {
            let want = ipv6_of_groups(head@);
            assert(ip.segments@ =~= want.segments@);
            assert(ip.segments == want.segments);
        }
        return Some(ip);
    }
    if dotted {
        return None;
    }
    if peek(s, mid) != Some(COLON) {
        return None;
    }
    if peek(s, mid + 1) != Some(COLON) {
        return None;
    }
    let room: usize = 7 - head.len();
    let (tail, end, _) = read_groups(s, mid + 2, room);
    if end != s.len() {
        return None;
    }
    let mut all: Vec<u16> = head;
    let ghost head_groups = all@;
    let gap: usize = 8 - all.len() - tail.len();
    let mut filled: usize = 0;
    while filled < gap
        invariant
            filled <= gap,
            all@ == head_groups + zero_groups(filled as int),
        decreases gap - filled,
    {
        all.push(0);
        filled += 1;
        assert(all@ =~= head_groups + zero_groups(filled as int));
    }
    let mut taken: usize = 0;
    while taken < tail.len()
        invariant
            taken <= tail.len(),
            all@ == head_groups + zero_groups(gap as int) + tail@.take(taken as int),
        decreases tail.len() - taken,
    {
        all.push(tail[taken]);
        taken += 1;
        assert(all@ =~= head_groups + zero_groups(gap as int) + tail@.take(taken as int));
    }
    assert(tail@.take(tail.len() as int) =~= tail@);
    let ip = Ipv6Address::new(all[0], all[1], all[2], all[3], all[4], all[5], all[6], all[7]);
    proof {
        let want = ipv6_of_groups(all@);
        assert(ip.segments@ =~= want.segments@);
        assert(ip.segments == want.segments);
    }
    Some(ip)
}

/// Reads `s` as an IP literal of either family.
pub fn parse_ip_literal(s: &[u8]) -> (r: Option<IpAddress>)
    ensures
        r == ip_literal(s@),
{
    match read_ipv4(s, 0) {
        Some(v4) => if v4.next == s.len() {
            Some(IpAddress::V4(v4.value))
        } else {
            None
        },
        None => match parse_ipv6_literal(s) {
            Some(ip) => Some(IpAddress::V6(ip)),
            None => None,
        },
    }
}

} // verus!
