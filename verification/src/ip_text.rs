//! Writing an IP address as text.
//!
//! An IPv4 address is written as four decimal octets joined by dots. An IPv6
//! address is written as groups of lower-case hexadecimal digits without
//! leading zeros, joined by colons; the longest run of two or more zero
//! groups, the first of the longest, is written `::`; and an address that
//! carries an IPv4 address is written `::ffff:a.b.c.d`.

use vstd::prelude::*;
use vstd::utf8::{encode_utf8, is_ascii_chars, is_ascii_chars_encode_utf8};
use crate::bytes_text::{decimal, decimal_spells_its_number, hex_byte};
use crate::chars::{as_chars, push_char, push_number};
use crate::ip_literal::{dotted, ip_literal, ipv4_literal_is_the_dotted_text, COLON};
use crate::net::{IpAddress, Ipv4Address, Ipv6Address};

verus! {

/// The hexadecimal text of `v`, without leading zeros.
pub open spec fn hex_group(v: nat) -> Seq<u8>
    decreases v,
{
    if v < 16 {
        seq![hex_byte(v as int)]
    } else {
        hex_group(v / 16).push(hex_byte((v % 16) as int))
    }
}

/// The hexadecimal texts of `groups`, joined by colons.
pub open spec fn groups_joined(groups: Seq<u16>) -> Seq<u8>
    decreases groups.len(),
{
    if groups.len() == 0 {
        Seq::empty()
    } else if groups.len() == 1 {
        hex_group(groups[0] as nat)
    } else {
        groups_joined(groups.drop_last()) + seq![COLON] + hex_group(groups.last() as nat)
    }
}

/// How many zero groups stand in a row from `start` on.
pub open spec fn zeros_from(groups: Seq<u16>, start: int) -> nat
    decreases groups.len() - start,
{
    if start < 0 || start >= groups.len() || groups[start] != 0 {
        0
    } else {
        1 + zeros_from(groups, start + 1)
    }
}

/// A run of zero groups.
pub struct ZeroRun {
    pub start: int,
    pub len: nat,
}

/// The longest run of zero groups that starts before `upto`; of several
/// longest runs, the first.
pub open spec fn longest_zero_run(groups: Seq<u16>, upto: int) -> ZeroRun
    decreases upto,
{
    if upto <= 0 {
        ZeroRun { start: 0, len: 0 }
    } else {
        let before = longest_zero_run(groups, upto - 1);
        let here = zeros_from(groups, upto - 1);
        if here > before.len {
            ZeroRun { start: upto - 1, len: here }
        } else {
            before
        }
    }
}

/// The bytes of `::ffff:`.
pub open spec fn mapped_prefix() -> Seq<u8> {
    seq![COLON, COLON, 102u8, 102u8, 102u8, 102u8, COLON]
}

/// The text of an IPv6 address, as bytes.
pub open spec fn ipv6_written(ip: Ipv6Address) -> Seq<u8> {
    let groups = ip.segments@;
    let run = longest_zero_run(groups, 8);
    if ip.is_ipv4_mapped() {
        mapped_prefix() + dotted(ip.embedded_ipv4())
    } else if run.len > 1 {
        groups_joined(groups.take(run.start)) + seq![COLON, COLON] + groups_joined(
            groups.skip(run.start + run.len),
        )
    } else {
        groups_joined(groups)
    }
}

/// The text of an IP address of either family, as bytes.
pub open spec fn ip_written(ip: IpAddress) -> Seq<u8> {
    match ip {
        IpAddress::V4(v4) => dotted(v4),
        IpAddress::V6(v6) => ipv6_written(v6),
    }
}

/// The dotted text of an IPv4 address.
pub open spec fn ipv4_text(ip: Ipv4Address) -> Seq<char> {
    as_chars(dotted(ip))
}

/// The text of an IPv6 address.
pub open spec fn ipv6_text(ip: Ipv6Address) -> Seq<char> {
    as_chars(ipv6_written(ip))
}

/// The text of an IP address of either family.
pub open spec fn ip_text(ip: IpAddress) -> Seq<char> {
    as_chars(ip_written(ip))
}

/// Appends the dotted text of `ip` to `s`.
pub fn push_ipv4(s: &mut String, ip: &Ipv4Address)
    ensures
        final(s)@ == old(s)@ + ipv4_text(*ip),
{
    push_number(s, ip.octets[0] as u64);
    push_char(s, '.');
    push_number(s, ip.octets[1] as u64);
    push_char(s, '.');
    push_number(s, ip.octets[2] as u64);
    push_char(s, '.');
    push_number(s, ip.octets[3] as u64);
    assert(s@ =~= old(s)@ + ipv4_text(*ip));
}

/// Appends the hexadecimal text of `v` to `s`.
fn push_hex(s: &mut String, v: u16)
    ensures
        final(s)@ == old(s)@ + as_chars(hex_group(v as nat)),
    decreases v,
{
    if v >= 16 {
        push_hex(s, v / 16);
    }
    let d: u8 = (v % 16) as u8;
    let c: u8 = if d < 10 {
        48 + d
    } else {
        87 + d
    };
    push_char(s, c as char);
    assert(s@ =~= old(s)@ + as_chars(hex_group(v as nat)));
}

/// Appends the groups of `groups` from `from` to `to`, joined by colons.
fn push_groups(s: &mut String, groups: &[u16; 8], from: usize, to: usize)
    requires
        from <= to <= 8,
    ensures
        final(s)@ == old(s)@ + as_chars(groups_joined(groups@.subrange(from as int, to as int))),
{
    let mut i: usize = from;
    assert(groups@.subrange(from as int, from as int) =~= Seq::<u16>::empty());
    assert(s@ =~= old(s)@ + as_chars(groups_joined(groups@.subrange(from as int, from as int))));
    while i < to
        invariant
            from <= i <= to <= 8,
            s@ == old(s)@ + as_chars(groups_joined(groups@.subrange(from as int, i as int))),
        decreases to - i,
    {
        let ghost before = groups@.subrange(from as int, i as int);
        let ghost next = groups@.subrange(from as int, i + 1);
        assert(next.drop_last() =~= before);
        assert(next.last() == groups@[i as int]);
        if i > from {
            push_char(s, ':');
        }
        push_hex(s, groups[i]);
        assert(s@ =~= old(s)@ + as_chars(groups_joined(next)));
        i += 1;
    }
}

/// How many zero groups stand in a row from `start` on.
fn count_zeros(groups: &[u16; 8], start: usize) -> (count: usize)
    requires
        start <= 8,
    ensures
        count == zeros_from(groups@, start as int),
        start + count <= 8,
    decreases 8 - start,
{
    if start >= 8 || groups[start] != 0 {
        0
    } else {
        1 + count_zeros(groups, start + 1)
    }
}

/// The text of an IPv6 address.
pub fn ipv6_to_text(ip: &Ipv6Address) -> (text: String)
    ensures
        text@ == ipv6_text(*ip),
{
    let mut text = String::new();
    if let Some(v4) = ip.to_ipv4_mapped() {
        push_char(&mut text, ':');
        push_char(&mut text, ':');
        push_char(&mut text, 'f');
        push_char(&mut text, 'f');
        push_char(&mut text, 'f');
        push_char(&mut text, 'f');
        push_char(&mut text, ':');
        push_ipv4(&mut text, &v4);
        assert(text@ =~= as_chars(mapped_prefix() + dotted(v4)));
        return text;
    }
    let mut start: usize = 0;
    let mut len: usize = 0;
    let mut at: usize = 0;
    while at < 8
        invariant
            at <= 8,
            start + len <= 8,
            longest_zero_run(ip.segments@, at as int) == (ZeroRun {
                start: start as int,
                len: len as nat,
            }),
        decreases 8 - at,
    {
        let here = count_zeros(&ip.segments, at);
        if here > len {
            start = at;
            len = here;
        }
        at += 1;
    }
    if len > 1 {
        assert(ip.segments@.subrange(0, start as int) =~= ip.segments@.take(start as int));
        assert(ip.segments@.subrange(start + len, 8) =~= ip.segments@.skip(start + len));
        push_groups(&mut text, &ip.segments, 0, start);
        push_char(&mut text, ':');
        push_char(&mut text, ':');
        push_groups(&mut text, &ip.segments, start + len, 8);
        assert(text@ =~= as_chars(
            groups_joined(ip.segments@.take(start as int)) + seq![COLON, COLON] + groups_joined(
                ip.segments@.skip(start + len),
            ),
        ));
    } else {
        assert(ip.segments@.subrange(0, 8) =~= ip.segments@);
        push_groups(&mut text, &ip.segments, 0, 8);
        assert(text@ =~= as_chars(groups_joined(ip.segments@)));
    }
    text
}

/// The text of an IP address of either family.
pub fn ip_to_text(ip: &IpAddress) -> (text: String)
    ensures
        text@ == ip_text(*ip),
{
    match ip {
        IpAddress::V4(v4) => {
            let mut text = String::new();
            push_ipv4(&mut text, v4);
            assert(text@ =~= ipv4_text(*v4));
            text
        },
        IpAddress::V6(v6) => ipv6_to_text(v6),
    }
}

/// The characters of a text of ASCII bytes are encoded as those bytes.
pub proof fn ascii_text_is_its_bytes(bytes: Seq<u8>)
    requires
        forall|i: int| 0 <= i < bytes.len() ==> #[trigger] bytes[i] < 128,
    ensures
        encode_utf8(as_chars(bytes)) == bytes,
{
    let text = as_chars(bytes);
    assert(is_ascii_chars(text)) by {
        assert forall|i: int| 0 <= i < text.len() implies '\0' <= #[trigger] text[i]
            <= '\u{7f}' by {
            assert(text[i] == bytes[i] as char);
        }
    }
    is_ascii_chars_encode_utf8(text);
    assert(encode_utf8(text) =~= bytes) by {
        assert forall|i: int| 0 <= i < text.len() implies encode_utf8(text)[i] == bytes[i] by {
            assert(text[i] == bytes[i] as char);
            assert(text[i] as u8 == encode_utf8(text)[i]);
        }
    }
}

/// The dotted text of an IPv4 address is made of digits and dots.
pub proof fn dotted_is_ascii(ip: Ipv4Address)
    ensures
        forall|i: int| 0 <= i < dotted(ip).len() ==> #[trigger] dotted(ip)[i] < 128,
{
    let bytes = dotted(ip);
    decimal_spells_its_number(ip.octets[0] as nat);
    decimal_spells_its_number(ip.octets[1] as nat);
    decimal_spells_its_number(ip.octets[2] as nat);
    decimal_spells_its_number(ip.octets[3] as nat);
    let a = decimal(ip.octets[0] as nat);
    let b = decimal(ip.octets[1] as nat);
    let c = decimal(ip.octets[2] as nat);
    let d = decimal(ip.octets[3] as nat);
    assert forall|i: int| 0 <= i < bytes.len() implies #[trigger] bytes[i] < 128 by {
        if i < a.len() {
            assert(bytes[i] == a[i]);
        } else if i == a.len() {
        } else if i < a.len() + 1 + b.len() {
            assert(bytes[i] == b[i - a.len() - 1]);
        } else if i == a.len() + 1 + b.len() {
        } else if i < a.len() + 1 + b.len() + 1 + c.len() {
            assert(bytes[i] == c[i - a.len() - b.len() - 2]);
        } else if i == a.len() + 1 + b.len() + 1 + c.len() {
        } else {
            assert(bytes[i] == d[i - a.len() - b.len() - c.len() - 3]);
        }
    }
}

/// The text that is written for an IPv4 address is read back as that
/// address.
pub proof fn written_ipv4_is_read_back(ip: Ipv4Address)
    ensures
        encode_utf8(ipv4_text(ip)) == dotted(ip),
        ip_literal(encode_utf8(ip_text(IpAddress::V4(ip)))) == Some(IpAddress::V4(ip)),
{
    dotted_is_ascii(ip);
    ascii_text_is_its_bytes(dotted(ip));
    ipv4_literal_is_the_dotted_text(dotted(ip), ip);
}

} // verus!
