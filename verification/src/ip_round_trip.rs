//! What is written for an IP address is read back as that address.

use vstd::prelude::*;
use crate::bytes_text::hex_byte;
use vstd::utf8::encode_utf8;
use crate::ip_literal::{
    byte_at,
    dotted,
    groups_from,
    groups_of_ipv4,
    hex_digit,
    hex_group_at,
    ip_literal,
    ipv4_at,
    ipv6_literal,
    ipv6_of_groups,
    written_ipv4_is_read,
    zero_groups,
    GroupRun,
    Step,
    COLON,
    DOT,
};
use crate::ip_text::{
    ascii_text_is_its_bytes,
    dotted_is_ascii,
    groups_joined,
    hex_group,
    ip_text,
    ip_written,
    ipv6_written,
    longest_zero_run,
    mapped_prefix,
    written_ipv4_is_read_back,
    zeros_from,
};
use crate::net::{IpAddress, Ipv4Address, Ipv6Address};

verus! {

/// Whether `b` is a lower-case hexadecimal digit.
pub open spec fn is_hex_byte(b: u8) -> bool {
    48 <= b <= 57 || 97 <= b <= 102
}

/// The hexadecimal text of a group has one to four digits.
proof fn hex_group_shape(v: u16)
    ensures
        v < 0x10 ==> hex_group(v as nat) == seq![hex_byte(v as int)],
        0x10 <= v < 0x100 ==> hex_group(v as nat) == seq![
            hex_byte(v as int / 16),
            hex_byte(v as int % 16),
        ],
        0x100 <= v < 0x1000 ==> hex_group(v as nat) == seq![
            hex_byte(v as int / 256),
            hex_byte(v as int / 16 % 16),
            hex_byte(v as int % 16),
        ],
        0x1000 <= v ==> hex_group(v as nat) == seq![
            hex_byte(v as int / 4096),
            hex_byte(v as int / 256 % 16),
            hex_byte(v as int / 16 % 16),
            hex_byte(v as int % 16),
        ],
        1 <= hex_group(v as nat).len() <= 4,
        forall|i: int| 0 <= i < hex_group(v as nat).len() ==> is_hex_byte(#[trigger] hex_group(v as nat)[i]),
{
    reveal_with_fuel(hex_group, 4);
    let n = v as nat;
    if v < 0x10 {
    } else if v < 0x100 {
        assert(hex_group(n) =~= seq![hex_byte(v as int / 16), hex_byte(v as int % 16)]);
    } else if v < 0x1000 {
        assert(n / 16 / 16 == n / 256);
        assert(hex_group(n) =~= seq![
            hex_byte(v as int / 256),
            hex_byte(v as int / 16 % 16),
            hex_byte(v as int % 16),
        ]);
    } else {
        assert(n / 16 / 16 == n / 256);
        assert(n / 16 / 16 / 16 == n / 4096);
        assert(n / 16 / 16 % 16 == n / 256 % 16);
        assert(hex_group(n) =~= seq![
            hex_byte(v as int / 4096),
            hex_byte(v as int / 256 % 16),
            hex_byte(v as int / 16 % 16),
            hex_byte(v as int % 16),
        ]);
    }
}

/// A hexadecimal digit is read as the value it was written for.
proof fn hex_byte_is_read(d: int)
    requires
        0 <= d < 16,
    ensures
        hex_digit(Some(hex_byte(d))) == Some(d as nat),
        is_hex_byte(hex_byte(d)),
{
}

/// The hexadecimal text of a group that stands at `pos`, with no
/// hexadecimal digit behind it, is read as that group.
#[verifier::rlimit(60)]
#[verifier::spinoff_prover]
proof fn written_group_is_read(s: Seq<u8>, pos: int, v: u16)
    requires
        0 <= pos,
        pos + hex_group(v as nat).len() <= s.len(),
        s.subrange(pos, pos + hex_group(v as nat).len()) == hex_group(v as nat),
        hex_digit(byte_at(s, pos + hex_group(v as nat).len())) is None,
    ensures
        hex_group_at(s, pos) == Some(Step { value: v, next: pos + hex_group(v as nat).len() }),
{
    hex_group_shape(v);
    let text = hex_group(v as nat);
    let part = s.subrange(pos, pos + text.len());
    let n = v as int;
    assert(part[0] == s[pos]);
    if v < 0x10 {
        hex_byte_is_read(n);
        assert(hex_digit(byte_at(s, pos)) == Some(n as nat));
    } else if v < 0x100 {
        assert(part[1] == s[pos + 1]);
        hex_byte_is_read(n / 16);
        hex_byte_is_read(n % 16);
        assert(hex_digit(byte_at(s, pos)) == Some((n / 16) as nat));
        assert(hex_digit(byte_at(s, pos + 1)) == Some((n % 16) as nat));
        assert(n / 16 * 16 + n % 16 == n);
    } else if v < 0x1000 {
        assert(part[1] == s[pos + 1]);
        assert(part[2] == s[pos + 2]);
        hex_byte_is_read(n / 256);
        hex_byte_is_read(n / 16 % 16);
        hex_byte_is_read(n % 16);
        assert(hex_digit(byte_at(s, pos)) == Some((n / 256) as nat));
        assert(hex_digit(byte_at(s, pos + 1)) == Some((n / 16 % 16) as nat));
        assert(hex_digit(byte_at(s, pos + 2)) == Some((n % 16) as nat));
        assert(n / 256 * 256 + n / 16 % 16 * 16 + n % 16 == n);
    } else {
        assert(part[1] == s[pos + 1]);
        assert(part[2] == s[pos + 2]);
        assert(part[3] == s[pos + 3]);
        hex_byte_is_read(n / 4096);
        hex_byte_is_read(n / 256 % 16);
        hex_byte_is_read(n / 16 % 16);
        hex_byte_is_read(n % 16);
        assert(hex_digit(byte_at(s, pos)) == Some((n / 4096) as nat));
        assert(hex_digit(byte_at(s, pos + 1)) == Some((n / 256 % 16) as nat));
        assert(hex_digit(byte_at(s, pos + 2)) == Some((n / 16 % 16) as nat));
        assert(hex_digit(byte_at(s, pos + 3)) == Some((n % 16) as nat));
        assert(n / 4096 * 4096 + n / 256 % 16 * 256 + n / 16 % 16 * 16 + n % 16 == n);
    }
}

/// No dotted IPv4 address stands where none of the next three bytes is a
/// dot.
proof fn no_ipv4_without_dot(s: Seq<u8>, pos: int)
    requires
        byte_at(s, pos + 1) != Some(DOT),
        byte_at(s, pos + 2) != Some(DOT),
        byte_at(s, pos + 3) != Some(DOT),
    ensures
        ipv4_at(s, pos) is None,
{
}

/// The hexadecimal texts of `groups`, each behind a colon.
pub open spec fn colon_groups(groups: Seq<u16>) -> Seq<u8>
    decreases groups.len(),
{
    if groups.len() == 0 {
        Seq::empty()
    } else {
        seq![COLON] + hex_group(groups[0] as nat) + colon_groups(groups.drop_first())
    }
}

/// Whether `b` is a byte of written groups: a hexadecimal digit or a colon.
pub open spec fn is_group_byte(b: u8) -> bool {
    is_hex_byte(b) || b == COLON
}

/// Whether every byte of `s` is a byte of written groups.
pub open spec fn is_group_text(s: Seq<u8>) -> bool {
    forall|i: int| 0 <= i < s.len() ==> is_group_byte(#[trigger] s[i])
}

/// Groups behind colons, with one more group behind them.
proof fn colon_groups_grow(groups: Seq<u16>)
    requires
        groups.len() > 0,
    ensures
        colon_groups(groups) == colon_groups(groups.drop_last()) + seq![COLON] + hex_group(
            groups.last() as nat,
        ),
    decreases groups.len(),
{
    if groups.len() == 1 {
        assert(groups.drop_first() =~= Seq::<u16>::empty());
        assert(groups.drop_last() =~= Seq::<u16>::empty());
        assert(colon_groups(groups) =~= seq![COLON] + hex_group(groups[0] as nat));
    } else {
        let rest = groups.drop_first();
        colon_groups_grow(rest);
        assert(rest.drop_last() =~= groups.drop_last().drop_first());
        assert(rest.last() == groups.last());
        assert(groups.drop_last()[0] == groups[0]);
        assert(colon_groups(groups) =~= colon_groups(groups.drop_last()) + seq![COLON]
            + hex_group(groups.last() as nat));
    }
}

/// Joined groups are the first group and the other groups behind colons.
proof fn joined_is_first_and_colon_groups(groups: Seq<u16>)
    requires
        groups.len() > 0,
    ensures
        groups_joined(groups) == hex_group(groups[0] as nat) + colon_groups(groups.drop_first()),
    decreases groups.len(),
{
    if groups.len() == 1 {
        assert(groups.drop_first() =~= Seq::<u16>::empty());
        assert(groups_joined(groups) =~= hex_group(groups[0] as nat) + colon_groups(
            groups.drop_first(),
        ));
    } else {
        let front = groups.drop_last();
        joined_is_first_and_colon_groups(front);
        colon_groups_grow(groups.drop_first());
        assert(groups.drop_first().drop_last() =~= front.drop_first());
        assert(groups.drop_first().last() == groups.last());
        assert(front[0] == groups[0]);
        assert(groups_joined(groups) =~= hex_group(groups[0] as nat) + colon_groups(
            groups.drop_first(),
        ));
    }
}

/// Groups behind colons are made of hexadecimal digits and colons.
proof fn colon_groups_are_group_text(groups: Seq<u16>)
    ensures
        is_group_text(colon_groups(groups)),
    decreases groups.len(),
{
    if groups.len() > 0 {
        colon_groups_are_group_text(groups.drop_first());
        hex_group_shape(groups[0]);
        let head = hex_group(groups[0] as nat);
        let rest = colon_groups(groups.drop_first());
        let all = colon_groups(groups);
        assert forall|i: int| 0 <= i < all.len() implies is_group_byte(#[trigger] all[i]) by {
            if i == 0 {
            } else if i < 1 + head.len() {
                assert(all[i] == head[i - 1]);
            } else {
                assert(all[i] == rest[i - 1 - head.len()]);
            }
        }
    }
}

/// Joined groups are made of hexadecimal digits and colons.
proof fn joined_groups_are_group_text(groups: Seq<u16>)
    ensures
        is_group_text(groups_joined(groups)),
{
    if groups.len() > 0 {
        joined_is_first_and_colon_groups(groups);
        colon_groups_are_group_text(groups.drop_first());
        hex_group_shape(groups[0]);
        let head = hex_group(groups[0] as nat);
        let rest = colon_groups(groups.drop_first());
        let all = groups_joined(groups);
        assert forall|i: int| 0 <= i < all.len() implies is_group_byte(#[trigger] all[i]) by {
            if i < head.len() {
                assert(all[i] == head[i]);
            } else {
                assert(all[i] == rest[i - head.len()]);
            }
        }
    }
}

/// Groups behind colons that stand at `pos` in a text of hexadecimal digits
/// and colons are read, one after the other, up to where no further group
/// follows or the limit is reached.
proof fn colon_groups_are_read(
    s: Seq<u8>,
    pos: int,
    limit: nat,
    done: Seq<u16>,
    groups: Seq<u16>,
)
    requires
        is_group_text(s),
        0 <= pos,
        done.len() > 0,
        done.len() + groups.len() <= limit,
        pos + colon_groups(groups).len() <= s.len(),
        s.subrange(pos, pos + colon_groups(groups).len()) == colon_groups(groups),
        hex_digit(byte_at(s, pos + colon_groups(groups).len())) is None,
        done.len() + groups.len() == limit || byte_at(s, pos + colon_groups(groups).len())
            != Some(COLON) || hex_digit(byte_at(s, pos + colon_groups(groups).len() + 1))
            is None,
    ensures
        groups_from(s, pos, limit, done) == (GroupRun {
            groups: done + groups,
            next: pos + colon_groups(groups).len(),
            dotted: false,
        }),
    decreases groups.len(),
{
    let start = pos + 1;
    assert(ipv4_at(s, start) is None) by {
        group_text_has_no_ipv4(s, start);
    }
    if groups.len() == 0 {
        assert(done + groups =~= done);
    } else {
        let first = groups[0];
        let rest = groups.drop_first();
        let head = hex_group(first as nat);
        let tail = colon_groups(rest);
        let all = colon_groups(groups);
        hex_group_shape(first);
        assert forall|i: int| 0 <= i < all.len() implies s[pos + i] == #[trigger] all[i] by {
            assert(s.subrange(pos, pos + all.len())[i] == s[pos + i]);
        }
        assert(s[pos] == COLON) by {
            assert(all[0] == COLON);
        }
        assert(s.subrange(start, start + head.len()) =~= head) by {
            assert forall|i: int| 0 <= i < head.len() implies s[start + i] == head[i] by {
                assert(all[1 + i] == head[i]);
            }
        }
        let after = start + head.len();
        assert(s.subrange(after, after + tail.len()) =~= tail) by {
            assert forall|i: int| 0 <= i < tail.len() implies s[after + i] == tail[i] by {
                assert(all[1 + head.len() + i] == tail[i]);
            }
        }
        if rest.len() > 0 {
            assert(tail[0] == COLON);
            assert(s[after] == COLON);
        }
        written_group_is_read(s, start, first);
        colon_groups_are_read(s, after, limit, done.push(first), rest);
        assert(done.push(first) + rest =~= done + groups);
    }
}

/// No dotted IPv4 address stands in a text of hexadecimal digits and
/// colons.
proof fn group_text_has_no_ipv4(s: Seq<u8>, pos: int)
    requires
        is_group_text(s),
    ensures
        ipv4_at(s, pos) is None,
{
    no_ipv4_without_dot(s, pos);
}

/// Joined groups that stand at `pos` in a text of hexadecimal digits and
/// colons are read, up to where no further group follows or the limit is
/// reached.
proof fn joined_groups_are_read(s: Seq<u8>, pos: int, limit: nat, groups: Seq<u16>)
    requires
        is_group_text(s),
        0 <= pos,
        groups.len() <= limit,
        pos + groups_joined(groups).len() <= s.len(),
        s.subrange(pos, pos + groups_joined(groups).len()) == groups_joined(groups),
        hex_digit(byte_at(s, pos + groups_joined(groups).len())) is None,
        groups.len() == limit || byte_at(s, pos + groups_joined(groups).len()) != Some(COLON)
            || hex_digit(byte_at(s, pos + groups_joined(groups).len() + 1)) is None,
    ensures
        groups_from(s, pos, limit, Seq::empty()) == (GroupRun {
            groups,
            next: pos + groups_joined(groups).len(),
            dotted: false,
        }),
{
    group_text_has_no_ipv4(s, pos);
    let none = Seq::<u16>::empty();
    if groups.len() == 0 {
        assert(groups =~= none);
    } else {
        let first = groups[0];
        let rest = groups.drop_first();
        let head = hex_group(first as nat);
        let tail = colon_groups(rest);
        let all = groups_joined(groups);
        joined_is_first_and_colon_groups(groups);
        hex_group_shape(first);
        assert forall|i: int| 0 <= i < all.len() implies s[pos + i] == #[trigger] all[i] by {
            assert(s.subrange(pos, pos + all.len())[i] == s[pos + i]);
        }
        assert(s.subrange(pos, pos + head.len()) =~= head) by {
            assert forall|i: int| 0 <= i < head.len() implies s[pos + i] == head[i] by {
                assert(all[i] == head[i]);
            }
        }
        let after = pos + head.len();
        assert(s.subrange(after, after + tail.len()) =~= tail) by {
            assert forall|i: int| 0 <= i < tail.len() implies s[after + i] == tail[i] by {
                assert(all[head.len() + i] == tail[i]);
            }
        }
        if rest.len() > 0 {
            assert(tail[0] == COLON);
            assert(s[after] == COLON);
        }
        written_group_is_read(s, pos, first);
        colon_groups_are_read(s, after, limit, none.push(first), rest);
        assert(none.push(first) + rest =~= groups);
    }
}

/// The groups that are counted from `start` on are zero, and they end
/// inside the address.
proof fn counted_zeros_are_zero(groups: Seq<u16>, start: int)
    requires
        0 <= start,
    ensures
        start + zeros_from(groups, start) <= groups.len() || zeros_from(groups, start) == 0,
        forall|i: int|
            start <= i < start + zeros_from(groups, start) ==> #[trigger] groups[i] == 0,
    decreases groups.len() - start,
{
    if start < groups.len() && groups[start] == 0 {
        counted_zeros_are_zero(groups, start + 1);
    }
}

/// The longest run of zero groups lies inside the address and holds zero
/// groups only.
proof fn longest_run_is_of_zeros(groups: Seq<u16>, upto: int)
    ensures
        0 <= longest_zero_run(groups, upto).start,
        longest_zero_run(groups, upto).len > 0 ==> longest_zero_run(groups, upto).start
            + longest_zero_run(groups, upto).len <= groups.len(),
        forall|i: int|
            longest_zero_run(groups, upto).start <= i < longest_zero_run(groups, upto).start
                + longest_zero_run(groups, upto).len ==> #[trigger] groups[i] == 0,
    decreases upto,
{
    if upto > 0 {
        longest_run_is_of_zeros(groups, upto - 1);
        counted_zeros_are_zero(groups, upto - 1);
    }
}

/// A text that starts with a colon or a hexadecimal digit and holds no dot
/// is no IPv4 literal, and so is read as an IPv6 literal or not at all.
proof fn group_text_is_read_as_ipv6(s: Seq<u8>)
    requires
        is_group_text(s),
    ensures
        ip_literal(s) == (match ipv6_literal(s) {
            Some(v6) => Some(IpAddress::V6(v6)),
            None => None,
        }),
{
    group_text_has_no_ipv4(s, 0);
}

/// Eight joined groups are read as the address with these groups.
proof fn full_form_is_read(groups: Seq<u16>)
    requires
        groups.len() == 8,
    ensures
        ipv6_literal(groups_joined(groups)) == Some(ipv6_of_groups(groups)),
        is_group_text(groups_joined(groups)),
{
    let s = groups_joined(groups);
    joined_groups_are_group_text(groups);
    assert(s.subrange(0, s.len() as int) =~= s);
    joined_groups_are_read(s, 0, 8, groups);
}

/// Groups, a double colon and more groups are read as the address with
/// zero groups between the two runs, where at least one group is left out.
proof fn folded_form_is_read(head: Seq<u16>, tail: Seq<u16>)
    requires
        head.len() + tail.len() <= 7,
    ensures
        ipv6_literal(groups_joined(head) + seq![COLON, COLON] + groups_joined(tail)) == Some(
            ipv6_of_groups(head + zero_groups(8 - head.len() - tail.len()) + tail),
        ),
        is_group_text(groups_joined(head) + seq![COLON, COLON] + groups_joined(tail)),
{
    let front = groups_joined(head);
    let back = groups_joined(tail);
    let s = front + seq![COLON, COLON] + back;
    joined_groups_are_group_text(head);
    joined_groups_are_group_text(tail);
    assert forall|i: int| 0 <= i < s.len() implies is_group_byte(#[trigger] s[i]) by {
        if i < front.len() {
            assert(s[i] == front[i]);
        } else if i < front.len() + 2 {
        } else {
            assert(s[i] == back[i - front.len() - 2]);
        }
    }
    let mid = front.len() as int;
    assert(s.subrange(0, mid) =~= front);
    assert(s[mid] == COLON);
    assert(s[mid + 1] == COLON);
    assert(s.subrange(mid + 2, mid + 2 + back.len()) =~= back);
    joined_groups_are_read(s, 0, 8, head);
    joined_groups_are_read(s, mid + 2, (7 - head.len()) as nat, tail);
}

/// The mapped form `::ffff:a.b.c.d` is read as the address that carries
/// `a.b.c.d`.
proof fn mapped_form_is_read(v4: Ipv4Address)
    ensures
        ipv6_literal(mapped_prefix() + dotted(v4)) == Some(
            ipv6_of_groups(zero_groups(5) + seq![0xffffu16] + groups_of_ipv4(v4)),
        ),
        ipv4_at(mapped_prefix() + dotted(v4), 0) is None,
{
    let s = mapped_prefix() + dotted(v4);
    let none = Seq::<u16>::empty();
    assert(s[0] == COLON && s[1] == COLON && s[2] == 102 && s[3] == 102 && s[4] == 102 && s[5]
        == 102 && s[6] == COLON);
    assert(s.subrange(7, 7 + dotted(v4).len() as int) =~= dotted(v4));
    written_ipv4_is_read(s, 7, v4);
    assert(groups_from(s, 0, 8, none) == GroupRun { groups: none, next: 0, dotted: false });
    assert(hex_group_at(s, 2) == Some(Step { value: 0xffffu16, next: 6 }));
    assert(ipv4_at(s, 2) is None);
    let one = none.push(0xffffu16);
    assert(groups_from(s, 6, 7, one) == GroupRun {
        groups: one + groups_of_ipv4(v4),
        next: 7 + dotted(v4).len() as int,
        dotted: true,
    });
    assert(groups_from(s, 2, 7, none) == groups_from(s, 6, 7, one));
    assert(none + zero_groups(5) + (one + groups_of_ipv4(v4)) =~= zero_groups(5) + seq![
        0xffffu16,
    ] + groups_of_ipv4(v4));
}

/// The eight groups carry the address they were taken from.
proof fn groups_make_their_address(ip: Ipv6Address, groups: Seq<u16>)
    requires
        groups =~= ip.segments@,
    ensures
        ipv6_of_groups(groups) == ip,
{
    assert(ipv6_of_groups(groups).segments@ =~= ip.segments@);
    assert(ipv6_of_groups(groups).segments == ip.segments);
}

/// An address that carries an IPv4 address is read back from its text.
proof fn mapped_address_is_read_back(ip: Ipv6Address)
    requires
        ip.is_ipv4_mapped(),
    ensures
        ip_literal(ipv6_written(ip)) == Some(IpAddress::V6(ip)),
{
    let v4 = ip.embedded_ipv4();
    mapped_form_is_read(v4);
    let got = zero_groups(5) + seq![0xffffu16] + groups_of_ipv4(v4);
    assert(got =~= ip.segments@) by {
        assert(got.len() == 8);
        assert(got[6] == ip.segments@[6]);
        assert(got[7] == ip.segments@[7]);
    }
    groups_make_their_address(ip, got);
}

/// An address with a run of zero groups is read back from its text.
proof fn folded_address_is_read_back(ip: Ipv6Address)
    requires
        !ip.is_ipv4_mapped(),
        longest_zero_run(ip.segments@, 8).len > 1,
    ensures
        ip_literal(ipv6_written(ip)) == Some(IpAddress::V6(ip)),
{
    let groups = ip.segments@;
    let run = longest_zero_run(groups, 8);
    longest_run_is_of_zeros(groups, 8);
    let head = groups.take(run.start);
    let tail = groups.skip(run.start + run.len);
    folded_form_is_read(head, tail);
    let got = head + zero_groups(8 - head.len() - tail.len()) + tail;
    assert(got =~= groups);
    groups_make_their_address(ip, got);
    group_text_is_read_as_ipv6(ipv6_written(ip));
}

/// An address without a run of zero groups is read back from its text.
proof fn full_address_is_read_back(ip: Ipv6Address)
    requires
        !ip.is_ipv4_mapped(),
        longest_zero_run(ip.segments@, 8).len <= 1,
    ensures
        ip_literal(ipv6_written(ip)) == Some(IpAddress::V6(ip)),
{
    full_form_is_read(ip.segments@);
    groups_make_their_address(ip, ip.segments@);
    group_text_is_read_as_ipv6(ipv6_written(ip));
}

/// The text that is written for an IPv6 address is made of ASCII bytes.
proof fn written_ipv6_is_ascii(ip: Ipv6Address)
    ensures
        forall|i: int| 0 <= i < ipv6_written(ip).len() ==> #[trigger] ipv6_written(ip)[i] < 128,
{
    let groups = ip.segments@;
    let run = longest_zero_run(groups, 8);
    let s = ipv6_written(ip);
    if ip.is_ipv4_mapped() {
        let v4 = ip.embedded_ipv4();
        dotted_is_ascii(v4);
        assert forall|i: int| 0 <= i < s.len() implies #[trigger] s[i] < 128 by {
            if i >= 7 {
                assert(s[i] == dotted(v4)[i - 7]);
            }
        }
    } else if run.len > 1 {
        longest_run_is_of_zeros(groups, 8);
        folded_form_is_read(groups.take(run.start), groups.skip(run.start + run.len));
        assert forall|i: int| 0 <= i < s.len() implies #[trigger] s[i] < 128 by {
            assert(is_group_byte(s[i]));
        }
    } else {
        full_form_is_read(groups);
        assert forall|i: int| 0 <= i < s.len() implies #[trigger] s[i] < 128 by {
            assert(is_group_byte(s[i]));
        }
    }
}

/// The text that is written for an IPv6 address is read back as that
/// address.
pub proof fn written_ipv6_is_read_back(ip: Ipv6Address)
    ensures
        ip_literal(ipv6_written(ip)) == Some(IpAddress::V6(ip)),
{
    if ip.is_ipv4_mapped() {
        mapped_address_is_read_back(ip);
    } else if longest_zero_run(ip.segments@, 8).len > 1 {
        folded_address_is_read_back(ip);
    } else {
        full_address_is_read_back(ip);
    }
}

/// The text that is written for an IP address of either family, taken as a
/// host, is read back as that address.
pub proof fn written_address_is_read_back(ip: IpAddress)
    ensures
        ip_literal(encode_utf8(ip_text(ip))) == Some(ip),
{
    match ip {
        IpAddress::V4(v4) => {
            written_ipv4_is_read_back(v4);
        },
        IpAddress::V6(v6) => {
            written_ipv6_is_read_back(v6);
            written_ipv6_is_ascii(v6);
            ascii_text_is_its_bytes(ip_written(ip));
        },
    }
}

} // verus!
