//! Text as bytes: ASCII case, decimal numbers, hexadecimal digits.

use vstd::prelude::*;

verus! {

/// The lower-case form of an ASCII letter; any other byte as it is.
pub open spec fn lower_byte(b: u8) -> u8 {
    if 65 <= b <= 90 {
        (b + 32) as u8
    } else {
        b
    }
}

/// The upper-case form of an ASCII letter; any other byte as it is.
pub open spec fn upper_byte(b: u8) -> u8 {
    if 97 <= b <= 122 {
        (b - 32) as u8
    } else {
        b
    }
}

/// `s` with every ASCII letter in lower case.
pub open spec fn lower(s: Seq<u8>) -> Seq<u8> {
    Seq::new(s.len(), |i: int| lower_byte(s[i]))
}

/// `s` with every ASCII letter in upper case.
pub open spec fn upper(s: Seq<u8>) -> Seq<u8> {
    Seq::new(s.len(), |i: int| upper_byte(s[i]))
}

/// Whether two texts are the same but for the case of ASCII letters.
pub open spec fn same_ignoring_case(a: Seq<u8>, b: Seq<u8>) -> bool {
    lower(a) == lower(b)
}

/// The ASCII digit for a value below ten.
pub open spec fn digit_byte(v: nat) -> u8
    recommends
        v < 10,
{
    (48 + v) as u8
}

/// The decimal text of `n`, without leading zeros.
pub open spec fn decimal(n: nat) -> Seq<u8>
    decreases n,
{
    if n < 10 {
        seq![digit_byte(n)]
    } else {
        decimal(n / 10).push(digit_byte(n % 10))
    }
}

/// Whether every byte of `s` is an ASCII digit.
pub open spec fn all_digits(s: Seq<u8>) -> bool {
    forall|i: int| 0 <= i < s.len() ==> 48 <= #[trigger] s[i] <= 57
}

/// The number that a run of ASCII digits spells, leading zeros allowed.
pub open spec fn digits_value(s: Seq<u8>) -> nat
    decreases s.len(),
{
    if s.len() == 0 {
        0
    } else {
        digits_value(s.drop_last()) * 10 + (s.last() - 48) as nat
    }
}

/// The number below 2^64 that `s` spells in decimal digits, if it spells one.
pub open spec fn decimal_u64(s: Seq<u8>) -> Option<u64> {
    if s.len() > 0 && all_digits(s) && digits_value(s) <= u64::MAX {
        Some(digits_value(s) as u64)
    } else {
        None
    }
}

/// The lower-case hexadecimal digit for a value below sixteen.
pub open spec fn hex_byte(v: int) -> u8
    recommends
        0 <= v < 16,
{
    if v < 10 {
        (48 + v) as u8
    } else {
        (87 + v) as u8
    }
}

/// The lower-case hexadecimal text of `bytes`: two digits for each byte, the
/// high half first.
pub open spec fn hex_lower(bytes: Seq<u8>) -> Seq<u8> {
    Seq::new(
        2 * bytes.len(),
        |i: int|
            if i % 2 == 0 {
                hex_byte(bytes[i / 2] as int / 16)
            } else {
                hex_byte(bytes[i / 2] as int % 16)
            },
    )
}

pub fn to_lower_byte(b: u8) -> (r: u8)
    ensures
        r == lower_byte(b),
{
    if 65 <= b && b <= 90 {
        b + 32
    } else {
        b
    }
}

pub fn to_upper_byte(b: u8) -> (r: u8)
    ensures
        r == upper_byte(b),
{
    if 97 <= b && b <= 122 {
        b - 32
    } else {
        b
    }
}

/// Appends `s` to `out`.
pub fn push_all(out: &mut Vec<u8>, s: &[u8])
    ensures
        final(out)@ == old(out)@ + s@,
{
    let mut i: usize = 0;
    while i < s.len()
        invariant
            i <= s.len(),
            out@ == old(out)@ + s@.take(i as int),
        decreases s.len() - i,
    {
        out.push(s[i]);
        i += 1;
        assert(out@ =~= old(out)@ + s@.take(i as int));
    }
    assert(s@.take(s.len() as int) =~= s@);
}

/// Appends `s` in lower case to `out`.
pub fn push_lower(out: &mut Vec<u8>, s: &[u8])
    ensures
        final(out)@ == old(out)@ + lower(s@),
{
    let mut i: usize = 0;
    while i < s.len()
        invariant
            i <= s.len(),
            out@ == old(out)@ + lower(s@).take(i as int),
        decreases s.len() - i,
    {
        out.push(to_lower_byte(s[i]));
        i += 1;
        assert(out@ =~= old(out)@ + lower(s@).take(i as int));
    }
    assert(lower(s@).take(s.len() as int) =~= lower(s@));
}

/// Appends `s` in upper case to `out`.
pub fn push_upper(out: &mut Vec<u8>, s: &[u8])
    ensures
        final(out)@ == old(out)@ + upper(s@),
{
    let mut i: usize = 0;
    while i < s.len()
        invariant
            i <= s.len(),
            out@ == old(out)@ + upper(s@).take(i as int),
        decreases s.len() - i,
    {
        out.push(to_upper_byte(s[i]));
        i += 1;
        assert(out@ =~= old(out)@ + upper(s@).take(i as int));
    }
    assert(upper(s@).take(s.len() as int) =~= upper(s@));
}

/// Appends the decimal text of `n` to `out`.
pub fn push_decimal(out: &mut Vec<u8>, n: u64)
    ensures
        final(out)@ == old(out)@ + decimal(n as nat),
    decreases n,
{
    if n >= 10 {
        push_decimal(out, n / 10);
    }
    out.push(48 + (n % 10) as u8);
    assert(out@ =~= old(out)@ + decimal(n as nat));
}

/// Whether two texts are the same but for the case of ASCII letters.
pub fn eq_ignoring_case(a: &[u8], b: &[u8]) -> (same: bool)
    ensures
        same == same_ignoring_case(a@, b@),
{
    if a.len() != b.len() {
        assert(lower(a@).len() != lower(b@).len());
        return false;
    }
    let mut i: usize = 0;
    while i < a.len()
        invariant
            i <= a.len(),
            a.len() == b.len(),
            forall|k: int| 0 <= k < i ==> lower_byte(a@[k]) == lower_byte(b@[k]),
        decreases a.len() - i,
    {
        if to_lower_byte(a[i]) != to_lower_byte(b[i]) {
            assert(lower(a@)[i as int] != lower(b@)[i as int]);
            return false;
        }
        i += 1;
    }
    assert(lower(a@) =~= lower(b@));
    true
}

/// Whether two texts are the same. The time taken depends on the lengths
/// alone, not on where the texts differ.
pub fn constant_time_eq(a: &[u8], b: &[u8]) -> (same: bool)
    ensures
        same == (a@ == b@),
{
    if a.len() != b.len() {
        return false;
    }
    let mut differing: u8 = 0;
    let mut i: usize = 0;
    while i < a.len()
        invariant
            i <= a.len(),
            a.len() == b.len(),
            differing == 0 <==> forall|k: int| 0 <= k < i ==> a@[k] == b@[k],
        decreases a.len() - i,
    {
        let x: u8 = a[i];
        let y: u8 = b[i];
        let before: u8 = differing;
        differing = differing | (x ^ y);
        assert((before | (x ^ y)) == 0 <==> (before == 0 && x == y)) by (bit_vector);
        i += 1;
    }
    if differing == 0 {
        assert(a@ =~= b@);
    }
    differing == 0
}

/// Reads `s` as a decimal number below 2^64.
pub fn parse_decimal_u64(s: &[u8]) -> (r: Option<u64>)
    ensures
        r == decimal_u64(s@),
{
    if s.len() == 0 {
        return None;
    }
    let mut value: u64 = 0;
    let mut i: usize = 0;
    let mut fits: bool = true;
    while i < s.len()
        invariant
            i <= s.len(),
            all_digits(s@.take(i as int)),
            fits ==> value == digits_value(s@.take(i as int)),
            !fits ==> digits_value(s@.take(i as int)) > u64::MAX,
        decreases s.len() - i,
    {
        let c = s[i];
        if c < 48 || c > 57 {
            assert(!all_digits(s@)) by {
                if all_digits(s@) {
                    assert(48 <= s@[i as int] <= 57);
                }
            }
            return None;
        }
        let d: u64 = (c - 48) as u64;
        proof {
            let next = s@.take(i + 1);
            assert(next.drop_last() =~= s@.take(i as int));
            assert(next.last() == c);
            assert(digits_value(next) == digits_value(s@.take(i as int)) * 10 + d);
            assert forall|k: int| 0 <= k < next.len() implies 48 <= #[trigger] next[k] <= 57 by {
                if k < i {
                    assert(s@.take(i as int)[k] == next[k]);
                }
            }
        }
        if fits {
            if value > (u64::MAX - d) / 10 {
                fits = false;
            } else {
                value = value * 10 + d;
            }
        }
        i += 1;
    }
    assert(s@.take(s.len() as int) =~= s@);
    if fits {
        Some(value)
    } else {
        None
    }
}

/// The lower-case hexadecimal text of `bytes`.
pub fn to_hex_lower(bytes: &[u8]) -> (text: Vec<u8>)
    ensures
        text@ == hex_lower(bytes@),
{
    let mut text: Vec<u8> = Vec::new();
    let mut i: usize = 0;
    while i < bytes.len()
        invariant
            i <= bytes.len(),
            text@.len() == 2 * i,
            forall|k: int| 0 <= k < 2 * i ==> text@[k] == hex_lower(bytes@)[k],
        decreases bytes.len() - i,
    {
        let b: u8 = bytes[i];
        let hi: u8 = b / 16;
        let lo: u8 = b % 16;
        text.push(
            if hi < 10 {
                48 + hi
            } else {
                87 + hi
            },
        );
        text.push(
            if lo < 10 {
                48 + lo
            } else {
                87 + lo
            },
        );
        i += 1;
    }
    assert(text@ =~= hex_lower(bytes@));
    text
}

/// The decimal text of a number is made of digits and spells that number.
pub proof fn decimal_spells_its_number(n: nat)
    ensures
        decimal(n).len() > 0,
        all_digits(decimal(n)),
        digits_value(decimal(n)) == n,
    decreases n,
{
    if n < 10 {
        assert(decimal(n).drop_last() =~= Seq::<u8>::empty());
        assert(digits_value(decimal(n).drop_last()) == 0);
    } else {
        decimal_spells_its_number(n / 10);
        let head = decimal(n / 10);
        let text = head.push(digit_byte(n % 10));
        assert(text.drop_last() =~= head);
        assert forall|i: int| 0 <= i < text.len() implies 48 <= #[trigger] text[i] <= 57 by {
            if i < head.len() {
                assert(text[i] == head[i]);
            }
        }
    }
}

/// A number that is written in decimal is read back as it was.
pub proof fn written_number_is_read_back(n: u64)
    ensures
        decimal_u64(decimal(n as nat)) == Some(n),
{
    decimal_spells_its_number(n as nat);
}

/// Different bytes have different hexadecimal texts.
pub proof fn hex_text_tells_its_bytes(a: Seq<u8>, b: Seq<u8>)
    requires
        hex_lower(a) == hex_lower(b),
    ensures
        a == b,
{
    assert(hex_lower(a).len() == 2 * a.len());
    assert(hex_lower(b).len() == 2 * b.len());
    assert forall|i: int| 0 <= i < a.len() implies a[i] == b[i] by {
        let hi_a = hex_lower(a)[2 * i];
        let lo_a = hex_lower(a)[2 * i + 1];
        let hi_b = hex_lower(b)[2 * i];
        let lo_b = hex_lower(b)[2 * i + 1];
        assert(hi_a == hex_byte(a[i] as int / 16));
        assert(lo_a == hex_byte(a[i] as int % 16));
        assert(hi_b == hex_byte(b[i] as int / 16));
        assert(lo_b == hex_byte(b[i] as int % 16));
    }
    assert(a =~= b);
}

} // verus!
