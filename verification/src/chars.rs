//! Text as characters: blanks, comma-separated fields, numbers, switches.

use vstd::prelude::*;
use vstd::string::StringSliceAdditionalSpecFns;
use vstd::utf8::{decode_utf8, encode_utf8, encode_utf8_decode_utf8};
use crate::bytes_text::{
    decimal,
    decimal_spells_its_number,
    decimal_u64,
    parse_decimal_u64,
    push_decimal,
};

verus! {

/// Whether `c` is white space: a character with the Unicode property
/// `White_Space`.
pub open spec fn is_blank(c: char) -> bool {
    let v = c as u32;
    ||| 0x09 <= v <= 0x0d
    ||| v == 0x20
    ||| v == 0x85
    ||| v == 0xa0
    ||| v == 0x1680
    ||| 0x2000 <= v <= 0x200a
    ||| v == 0x2028
    ||| v == 0x2029
    ||| v == 0x202f
    ||| v == 0x205f
    ||| v == 0x3000
}

/// `s` without the blanks at its start.
pub open spec fn trim_start(s: Seq<char>) -> Seq<char>
    decreases s.len(),
{
    if s.len() > 0 && is_blank(s[0]) {
        trim_start(s.drop_first())
    } else {
        s
    }
}

/// `s` without the blanks at its end.
pub open spec fn trim_end(s: Seq<char>) -> Seq<char>
    decreases s.len(),
{
    if s.len() > 0 && is_blank(s.last()) {
        trim_end(s.drop_last())
    } else {
        s
    }
}

/// `s` without the blanks at its start and at its end.
pub open spec fn trimmed(s: Seq<char>) -> Seq<char> {
    trim_end(trim_start(s))
}

/// The trimmed fields of `s` from the field that starts at `start`, where
/// the text up to `at` holds no comma since `start`.
pub open spec fn comma_fields_from(s: Seq<char>, start: int, at: int) -> Seq<Seq<char>>
    decreases s.len() - at,
{
    if at < 0 || at >= s.len() {
        seq![trimmed(s.subrange(start, s.len() as int))]
    } else if s[at] == ',' {
        seq![trimmed(s.subrange(start, at))] + comma_fields_from(s, at + 1, at + 1)
    } else {
        comma_fields_from(s, start, at + 1)
    }
}

/// The fields that commas divide `s` into, each without the blanks around
/// it. A text without a comma is one field.
pub open spec fn comma_fields(s: Seq<char>) -> Seq<Seq<char>> {
    comma_fields_from(s, 0, 0)
}

/// The bytes of a text of ASCII characters.
pub open spec fn as_bytes(s: Seq<char>) -> Seq<u8> {
    s.map_values(|c: char| c as u8)
}

/// The characters of a text of ASCII bytes.
pub open spec fn as_chars(s: Seq<u8>) -> Seq<char> {
    s.map_values(|b: u8| b as char)
}

/// Whether every character of `s` is an ASCII digit.
pub open spec fn all_digit_chars(s: Seq<char>) -> bool {
    forall|i: int| 0 <= i < s.len() ==> '0' <= #[trigger] s[i] <= '9'
}

/// The number below 2^64 that `s` spells: decimal digits, leading zeros
/// allowed, after one optional plus sign.
pub open spec fn unsigned_value(s: Seq<char>) -> Option<u64> {
    let digits = if s.len() > 0 && s[0] == '+' {
        s.drop_first()
    } else {
        s
    };
    if all_digit_chars(digits) {
        decimal_u64(as_bytes(digits))
    } else {
        None
    }
}

/// The number below 2^16 that `s` spells, in the same form.
pub open spec fn port_value(s: Seq<char>) -> Option<u16> {
    match unsigned_value(s) {
        Some(v) => if v <= u16::MAX {
            Some(v as u16)
        } else {
            None
        },
        None => None,
    }
}

/// The switch that `s` spells: `true` or `false`, and nothing else.
pub open spec fn switch_value(s: Seq<char>) -> Option<bool> {
    if s == seq!['t', 'r', 'u', 'e'] {
        Some(true)
    } else if s == seq!['f', 'a', 'l', 's', 'e'] {
        Some(false)
    } else {
        None
    }
}

/// The text of a switch.
pub open spec fn switch_text(b: bool) -> Seq<char> {
    if b {
        seq!['t', 'r', 'u', 'e']
    } else {
        seq!['f', 'a', 'l', 's', 'e']
    }
}

/// The decimal text of `n`.
pub open spec fn decimal_text(n: nat) -> Seq<char> {
    as_chars(decimal(n))
}

/// The views of a list of texts.
pub open spec fn views(list: Seq<Vec<char>>) -> Seq<Seq<char>> {
    Seq::new(list.len(), |i: int| list[i]@)
}

/// `String::push` of std: appends one character to the end of the string.
#[verifier::external_body]
pub(crate) fn push_char(s: &mut String, c: char)
    ensures
        final(s)@ == old(s)@.push(c),
{
    s.push(c);
}

/// The characters of `s`.
pub fn to_chars(s: &str) -> (chars: Vec<char>)
    ensures
        chars@ == s@,
{
    broadcast use vstd::string::group_string_axioms;

    let mut chars: Vec<char> = Vec::new();
    for c in it: s.chars()
        invariant
            it.seq() == s@,
            chars@ == it.seq().take(it.index() as int),
    {
        chars.push(c);
        assert(chars@ =~= it.seq().take(it.index() + 1));
    }
    assert(s@.take(s@.len() as int) =~= s@);
    chars
}

/// The string that `chars` spell.
pub fn to_text(chars: &[char]) -> (s: String)
    ensures
        s@ == chars@,
{
    let mut s = String::new();
    let mut i: usize = 0;
    while i < chars.len()
        invariant
            i <= chars.len(),
            s@ == chars@.take(i as int),
        decreases chars.len() - i,
    {
        push_char(&mut s, chars[i]);
        i += 1;
        assert(s@ =~= chars@.take(i as int));
    }
    assert(chars@.take(chars.len() as int) =~= chars@);
    s
}

/// The text of `n` times the character `c`.
pub fn repeated(c: char, n: usize) -> (s: String)
    ensures
        s@ == Seq::new(n as nat, |i: int| c),
{
    let mut s = String::new();
    let mut i: usize = 0;
    while i < n
        invariant
            i <= n,
            s@ == Seq::new(i as nat, |k: int| c),
        decreases n - i,
    {
        push_char(&mut s, c);
        i += 1;
        assert(s@ =~= Seq::new(i as nat, |k: int| c));
    }
    s
}

/// Whether two strings spell the same text.
pub fn same_text(a: &str, b: &str) -> (same: bool)
    ensures
        same == (a@ == b@),
{
    let x = a.as_bytes();
    let y = b.as_bytes();
    proof {
        encode_utf8_decode_utf8(a@);
        encode_utf8_decode_utf8(b@);
    }
    if x.len() != y.len() {
        return false;
    }
    let mut i: usize = 0;
    while i < x.len()
        invariant
            i <= x.len(),
            x.len() == y.len(),
            x@ == encode_utf8(a@),
            y@ == encode_utf8(b@),
            decode_utf8(encode_utf8(a@)) == a@,
            decode_utf8(encode_utf8(b@)) == b@,
            forall|k: int| 0 <= k < i ==> x@[k] == y@[k],
        decreases x.len() - i,
    {
        if x[i] != y[i] {
            return false;
        }
        i += 1;
    }
    assert(x@ =~= y@);
    true
}

/// Whether `c` is white space.
pub fn is_blank_char(c: char) -> (blank: bool)
    ensures
        blank == is_blank(c),
{
    let v: u32 = c as u32;
    (0x09 <= v && v <= 0x0d) || v == 0x20 || v == 0x85 || v == 0xa0 || v == 0x1680 || (0x2000 <= v
        && v <= 0x200a) || v == 0x2028 || v == 0x2029 || v == 0x202f || v == 0x205f || v
        == 0x3000
}

/// The part of `s` from `start` to `end`, without the blanks around it.
pub fn trimmed_part(s: &[char], start: usize, end: usize) -> (part: Vec<char>)
    requires
        start <= end <= s.len(),
    ensures
        part@ == trimmed(s@.subrange(start as int, end as int)),
{
    let mut lo: usize = start;
    while lo < end && is_blank_char(s[lo])
        invariant
            start <= lo <= end <= s.len(),
            trim_start(s@.subrange(start as int, end as int)) == trim_start(
                s@.subrange(lo as int, end as int),
            ),
        decreases end - lo,
    {
        assert(s@.subrange(lo as int, end as int).drop_first() =~= s@.subrange(
            lo + 1,
            end as int,
        ));
        lo += 1;
    }
    assert(trim_start(s@.subrange(lo as int, end as int)) == s@.subrange(lo as int, end as int));
    let mut hi: usize = end;
    while hi > lo && is_blank_char(s[hi - 1])
        invariant
            lo <= hi <= end <= s.len(),
            trim_end(s@.subrange(lo as int, end as int)) == trim_end(
                s@.subrange(lo as int, hi as int),
            ),
        decreases hi - lo,
    {
        assert(s@.subrange(lo as int, hi as int).drop_last() =~= s@.subrange(
            lo as int,
            hi - 1,
        ));
        hi -= 1;
    }
    assert(trim_end(s@.subrange(lo as int, hi as int)) == s@.subrange(lo as int, hi as int));
    let mut part: Vec<char> = Vec::new();
    let mut i: usize = lo;
    while i < hi
        invariant
            lo <= i <= hi <= s.len(),
            part@ == s@.subrange(lo as int, i as int),
        decreases hi - i,
    {
        part.push(s[i]);
        i += 1;
        assert(part@ =~= s@.subrange(lo as int, i as int));
    }
    part
}

/// `s` without the blanks around it.
pub fn trim(s: &[char]) -> (part: Vec<char>)
    ensures
        part@ == trimmed(s@),
{
    assert(s@.subrange(0, s.len() as int) =~= s@);
    trimmed_part(s, 0, s.len())
}

/// Divides `s` at its commas and trims each field.
pub fn split_commas(s: &[char]) -> (fields: Vec<Vec<char>>)
    ensures
        views(fields@) == comma_fields(s@),
{
    let mut fields: Vec<Vec<char>> = Vec::new();
    let mut start: usize = 0;
    let mut at: usize = 0;
    assert(views(fields@) =~= Seq::<Seq<char>>::empty());
    while at < s.len()
        invariant
            start <= at <= s.len(),
            comma_fields(s@) == views(fields@) + comma_fields_from(s@, start as int, at as int),
        decreases s.len() - at,
    {
        if s[at] == ',' {
            let field = trimmed_part(s, start, at);
            let ghost before = views(fields@);
            fields.push(field);
            assert(views(fields@) =~= before + seq![trimmed(s@.subrange(start as int, at as int))]);
            start = at + 1;
        }
        at += 1;
    }
    let last = trimmed_part(s, start, s.len());
    let ghost before = views(fields@);
    fields.push(last);
    assert(views(fields@) =~= before + seq![trimmed(s@.subrange(start as int, s.len() as int))]);
    fields
}

/// Reads `s` as a number below 2^64.
pub fn parse_unsigned(s: &[char]) -> (r: Option<u64>)
    ensures
        r == unsigned_value(s@),
{
    let first: usize = if s.len() > 0 && s[0] == '+' {
        1
    } else {
        0
    };
    let ghost digits = s@.subrange(first as int, s.len() as int);
    assert(first == 1 ==> digits =~= s@.drop_first());
    assert(first == 0 ==> digits =~= s@);
    let mut bytes: Vec<u8> = Vec::new();
    let mut i: usize = first;
    while i < s.len()
        invariant
            first <= i <= s.len(),
            digits == s@.subrange(first as int, s.len() as int),
            unsigned_value(s@) == (if all_digit_chars(digits) {
                decimal_u64(as_bytes(digits))
            } else {
                None
            }),
            all_digit_chars(s@.subrange(first as int, i as int)),
            bytes@ == as_bytes(s@.subrange(first as int, i as int)),
        decreases s.len() - i,
    {
        let c = s[i];
        if c < '0' || c > '9' {
            assert(!all_digit_chars(digits)) by {
                assert(digits[i - first] == c);
            }
            return None;
        }
        bytes.push(c as u8);
        i += 1;
        assert(bytes@ =~= as_bytes(s@.subrange(first as int, i as int)));
        assert(all_digit_chars(s@.subrange(first as int, i as int))) by {
            assert forall|k: int| 0 <= k < i - first implies '0' <= #[trigger] s@.subrange(
                first as int,
                i as int,
            )[k] <= '9' by {
                if k < i - 1 - first {
                    assert(s@.subrange(first as int, i - 1)[k] == s@.subrange(
                        first as int,
                        i as int,
                    )[k]);
                }
            }
        }
    }
    assert(s@.subrange(first as int, s.len() as int) == digits);
    parse_decimal_u64(bytes.as_slice())
}

/// Reads `s` as a number below 2^16.
pub fn parse_port(s: &[char]) -> (r: Option<u16>)
    ensures
        r == port_value(s@),
{
    match parse_unsigned(s) {
        Some(v) => if v <= 65535 {
            Some(v as u16)
        } else {
            None
        },
        None => None,
    }
}

/// Reads `s` as a switch.
pub fn parse_switch(s: &[char]) -> (r: Option<bool>)
    ensures
        r == switch_value(s@),
{
    if s.len() == 4 && s[0] == 't' && s[1] == 'r' && s[2] == 'u' && s[3] == 'e' {
        assert(s@ =~= seq!['t', 'r', 'u', 'e']);
        Some(true)
    } else if s.len() == 5 && s[0] == 'f' && s[1] == 'a' && s[2] == 'l' && s[3] == 's' && s[4]
        == 'e' {
        assert(s@ =~= seq!['f', 'a', 'l', 's', 'e']);
        Some(false)
    } else {
        assert(s@ != seq!['t', 'r', 'u', 'e']) by {
            if s@ == seq!['t', 'r', 'u', 'e'] {
                assert(s@.len() == 4 && s@[0] == 't' && s@[1] == 'r' && s@[2] == 'u' && s@[3]
                    == 'e');
            }
        }
        assert(s@ != seq!['f', 'a', 'l', 's', 'e']) by {
            if s@ == seq!['f', 'a', 'l', 's', 'e'] {
                assert(s@.len() == 5 && s@[0] == 'f' && s@[1] == 'a' && s@[2] == 'l' && s@[3]
                    == 's' && s@[4] == 'e');
            }
        }
        None
    }
}

/// Appends the decimal text of `n` to `s`.
pub fn push_number(s: &mut String, n: u64)
    ensures
        final(s)@ == old(s)@ + decimal_text(n as nat),
{
    let mut bytes: Vec<u8> = Vec::new();
    push_decimal(&mut bytes, n);
    assert(bytes@ =~= decimal(n as nat));
    let mut i: usize = 0;
    while i < bytes.len()
        invariant
            i <= bytes.len(),
            s@ == old(s)@ + as_chars(bytes@).take(i as int),
        decreases bytes.len() - i,
    {
        push_char(s, bytes[i] as char);
        i += 1;
        assert(s@ =~= old(s)@ + as_chars(bytes@).take(i as int));
    }
    assert(as_chars(bytes@).take(bytes.len() as int) =~= as_chars(bytes@));
}

/// The decimal text of `n`.
pub fn number_text(n: u64) -> (s: String)
    ensures
        s@ == decimal_text(n as nat),
{
    let mut s = String::new();
    push_number(&mut s, n);
    assert(s@ =~= decimal_text(n as nat));
    s
}

/// The text of a switch.
pub fn switch_string(b: bool) -> (s: String)
    ensures
        s@ == switch_text(b),
{
    let mut s = String::new();
    if b {
        push_char(&mut s, 't');
        push_char(&mut s, 'r');
        push_char(&mut s, 'u');
        push_char(&mut s, 'e');
    } else {
        push_char(&mut s, 'f');
        push_char(&mut s, 'a');
        push_char(&mut s, 'l');
        push_char(&mut s, 's');
        push_char(&mut s, 'e');
    }
    assert(s@ =~= switch_text(b));
    s
}

/// Whether `s` holds no comma from `at` on.
pub open spec fn is_comma_free_from(s: Seq<char>, at: int) -> bool {
    forall|i: int| at <= i < s.len() ==> s[i] != ','
}

/// A text without a comma is one field.
pub proof fn comma_free_text_is_one_field(s: Seq<char>, start: int, at: int)
    requires
        0 <= at,
        is_comma_free_from(s, at),
    ensures
        comma_fields_from(s, start, at) == seq![trimmed(s.subrange(start, s.len() as int))],
    decreases s.len() - at,
{
    if at < s.len() {
        comma_free_text_is_one_field(s, start, at + 1);
    }
}

/// The fields of a text do not depend on what stands before the field that
/// is being read.
proof fn fields_of_a_suffix(before: Seq<char>, s: Seq<char>, start: int, at: int)
    requires
        0 <= start <= at <= s.len(),
    ensures
        comma_fields_from(before + s, before.len() + start, before.len() + at)
            == comma_fields_from(s, start, at),
    decreases s.len() - at,
{
    let whole = before + s;
    let shift = before.len() as int;
    assert(whole.subrange(shift + start, whole.len() as int) =~= s.subrange(
        start,
        s.len() as int,
    ));
    if at < s.len() {
        assert(whole[shift + at] == s[at]);
        assert(whole.subrange(shift + start, shift + at) =~= s.subrange(start, at));
        if s[at] == ',' {
            fields_of_a_suffix(before, s, at + 1, at + 1);
        } else {
            fields_of_a_suffix(before, s, start, at + 1);
        }
    }
}

/// The fields of two texts with a comma between them are the fields of the
/// first followed by the fields of the second.
pub proof fn fields_of_joined_texts(a: Seq<char>, b: Seq<char>, start: int, at: int)
    requires
        0 <= start <= at <= a.len(),
    ensures
        comma_fields_from(a + seq![','] + b, start, at) == comma_fields_from(a, start, at)
            + comma_fields(b),
    decreases a.len() - at,
{
    let whole = a + seq![','] + b;
    if at == a.len() {
        assert(whole[at] == ',');
        assert(whole.subrange(start, at) =~= a.subrange(start, a.len() as int));
        fields_of_a_suffix(a + seq![','], b, 0, 0);
        assert((a + seq![',']) + b =~= whole);
    } else {
        assert(whole[at] == a[at]);
        assert(whole.subrange(start, at) =~= a.subrange(start, at));
        if a[at] == ',' {
            fields_of_joined_texts(a, b, at + 1, at + 1);
        } else {
            fields_of_joined_texts(a, b, start, at + 1);
        }
    }
}

/// A text that neither starts nor ends with a blank is trimmed already, and
/// so it is with one blank before it.
pub proof fn tight_text_is_trimmed(s: Seq<char>)
    requires
        s.len() > 0,
        !is_blank(s[0]),
        !is_blank(s.last()),
    ensures
        trimmed(s) == s,
        trimmed(seq![' '] + s) == s,
{
    let spaced = seq![' '] + s;
    assert(spaced.drop_first() =~= s);
    assert(is_blank(' '));
}

/// The decimal text of a number is made of digits, has no blank in it, and
/// is read back as that number.
pub proof fn written_number_is_read(n: u64)
    ensures
        decimal_text(n as nat).len() > 0,
        all_digit_chars(decimal_text(n as nat)),
        unsigned_value(decimal_text(n as nat)) == Some(n),
{
    let bytes = decimal(n as nat);
    let text = decimal_text(n as nat);
    decimal_spells_its_number(n as nat);
    assert forall|i: int| 0 <= i < text.len() implies '0' <= #[trigger] text[i] <= '9' by {
        assert(text[i] == bytes[i] as char);
        assert(48 <= bytes[i] <= 57);
    }
    assert(as_bytes(text) =~= bytes) by {
        assert forall|i: int| 0 <= i < text.len() implies as_bytes(text)[i] == bytes[i] by {
            assert(text[i] == bytes[i] as char);
            assert(48 <= bytes[i] <= 57);
        }
    }
    assert(text[0] != '+');
}

/// The text of a switch is read back as that switch.
pub proof fn written_switch_is_read(b: bool)
    ensures
        switch_value(switch_text(b)) == Some(b),
{
    assert(switch_text(true).len() == 4);
    assert(switch_text(false).len() == 5);
}

} // verus!
