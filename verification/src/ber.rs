//! The BER primitive layer: identifier and length octets, and the
//! primitive value decoders the SNMP grammar needs.
//!
//! Every decoder exists twice: a specification parser over `Seq<u8>`,
//! which is the meaning of the encoding, and an executable parser over
//! `&[u8]` whose contract says that it returns exactly what the
//! specification parser returns.  Lengths are definite-form only; an
//! indefinite length is rejected.  Content is always a subrange of the
//! input, so no decoder reads past the buffer.

use vstd::prelude::*;
use vstd::slice::slice_subrange;

verus! {

use crate::error::BerErrorKind;

/// The decoded identifier and length octets of one BER element:
/// class (0 = universal, 1 = application, 2 = context-specific,
/// 3 = private), the constructed bit, the tag number and the definite
/// content length.
#[derive(Clone, Copy, Debug, PartialEq, Eq, Structural)]
pub struct BerHeader {
    pub class: u8,
    pub constructed: bool,
    pub tag: u32,
    pub length: usize,
}

impl DeepView for BerHeader {
    type V = BerHeader;

    open spec fn deep_view(&self) -> BerHeader {
        *self
    }
}

/// The view of a parse result: the remaining bytes and the decoded
/// value, or the error unchanged.
pub open spec fn parsed<T: DeepView, E>(r: Result<(&[u8], T), E>) -> Result<
    (Seq<u8>, T::V),
    E,
> {
    match r {
        Ok((rest, v)) => Ok((rest@, v.deep_view())),
        Err(e) => Err(e),
    }
}

/// The value of a big-endian base-256 digit string.
pub open spec fn be_value(s: Seq<u8>) -> int
    decreases s.len(),
{
    if s.len() == 0 {
        0
    } else {
        be_value(s.drop_last()) * 256 + s.last()
    }
}

/// 256 to the power `n`.
pub open spec fn pow256(n: nat) -> int
    decreases n,
{
    if n == 0 {
        1
    } else {
        256 * pow256((n - 1) as nat)
    }
}

/// One step of `be_value`: extending the digit string by one byte
/// multiplies the value by 256 and adds the byte.
proof fn lemma_be_value_step(s: Seq<u8>, a: int, k: int)
    requires
        0 <= a <= k < s.len(),
    ensures
        be_value(s.subrange(a, k + 1)) == be_value(s.subrange(a, k)) * 256 + s[k],
{
    assert(s.subrange(a, k + 1).drop_last() =~= s.subrange(a, k));
    assert(s.subrange(a, k + 1).last() == s[k]);
}

/// `be_value` is bounded by 256 to the number of digits.
proof fn lemma_be_value_bound(s: Seq<u8>)
    ensures
        be_value(s) < pow256(s.len()),
    decreases s.len(),
{
    if s.len() > 0 {
        lemma_be_value_bound(s.drop_last());
        assert(be_value(s.drop_last()) <= pow256((s.len() - 1) as nat) - 1);
        assert(be_value(s) <= (pow256((s.len() - 1) as nat) - 1) * 256 + 255) by (nonlinear_arith)
            requires
                be_value(s) == be_value(s.drop_last()) * 256 + s.last(),
                be_value(s.drop_last()) <= pow256((s.len() - 1) as nat) - 1,
                s.last() <= 255,
        ;
    }
}

/// A digit string starting with a nonzero byte is at least 256 to the
/// power of the remaining digit count.
proof fn lemma_be_value_first_lower(s: Seq<u8>)
    requires
        s.len() >= 1,
    ensures
        be_value(s) >= s[0] * pow256((s.len() - 1) as nat),
    decreases s.len(),
{
    if s.len() == 1 {
    } else {
        lemma_be_value_first_lower(s.drop_last());
        assert(s.drop_last()[0] == s[0]);
        assert(be_value(s) >= (s[0] * pow256((s.len() - 2) as nat)) * 256) by (nonlinear_arith)
            requires
                be_value(s) == be_value(s.drop_last()) * 256 + s.last(),
                be_value(s.drop_last()) >= s[0] * pow256((s.len() - 2) as nat),
                s.last() >= 0,
        ;
        assert((s[0] * pow256((s.len() - 2) as nat)) * 256 == s[0] * pow256(
            (s.len() - 1) as nat,
        )) by (nonlinear_arith)
            requires
                pow256((s.len() - 1) as nat) == 256 * pow256((s.len() - 2) as nat),
        ;
    }
}

/// A leading zero byte does not change the value.
proof fn lemma_be_value_drop_leading_zero(s: Seq<u8>)
    requires
        s.len() >= 1,
        s[0] == 0,
    ensures
        be_value(s) == be_value(s.subrange(1, s.len() as int)),
    decreases s.len(),
{
    if s.len() == 1 {
        assert(be_value(s) == be_value(s.drop_last()) * 256 + s.last());
    } else {
        lemma_be_value_drop_leading_zero(s.drop_last());
        assert(s.subrange(1, s.len() as int).drop_last() =~= s.drop_last().subrange(
            1,
            s.len() - 1,
        ));
        assert(s.subrange(1, s.len() as int).last() == s.last());
    }
}

/// Leading zero bytes do not change the value.
proof fn lemma_be_value_skip_zeros(s: Seq<u8>, m: int)
    requires
        0 <= m <= s.len(),
        forall|k: int| 0 <= k < m ==> s[k] == 0,
    ensures
        be_value(s) == be_value(s.subrange(m, s.len() as int)),
    decreases m,
{
    if m > 0 {
        lemma_be_value_drop_leading_zero(s);
        assert(s.subrange(1, s.len() as int).subrange(m - 1, s.len() - 1) =~= s.subrange(
            m,
            s.len() as int,
        ));
        assert(forall|k: int| 0 <= k < m - 1 ==> s.subrange(1, s.len() as int)[k] == 0);
        lemma_be_value_skip_zeros(s.subrange(1, s.len() as int), m - 1);
    } else {
        assert(s.subrange(0, s.len() as int) =~= s);
    }
}

/// A digit string starting with byte `b` is below `(b + 1) * 256^k`
/// where `k` counts the remaining digits.
proof fn lemma_be_value_first_upper(s: Seq<u8>)
    requires
        s.len() >= 1,
    ensures
        be_value(s) < (s[0] + 1) * pow256((s.len() - 1) as nat),
    decreases s.len(),
{
    if s.len() == 1 {
        assert(be_value(s) == be_value(s.drop_last()) * 256 + s.last());
    } else {
        lemma_be_value_first_upper(s.drop_last());
        assert(s.drop_last()[0] == s[0]);
        assert(be_value(s) <= ((s[0] + 1) * pow256((s.len() - 2) as nat) - 1) * 256 + 255)
            by (nonlinear_arith)
            requires
                be_value(s) == be_value(s.drop_last()) * 256 + s.last(),
                be_value(s.drop_last()) <= (s[0] + 1) * pow256((s.len() - 2) as nat) - 1,
                s.last() <= 255,
        ;
        assert(((s[0] + 1) * pow256((s.len() - 2) as nat)) * 256 == (s[0] + 1) * pow256(
            (s.len() - 1) as nat,
        )) by (nonlinear_arith)
            requires
                pow256((s.len() - 1) as nat) == 256 * pow256((s.len() - 2) as nat),
        ;
    }
}

/// The powers of 256 the integer decoders compare against.
proof fn lemma_pow256_values()
    ensures
        pow256(1) == 0x100,
        pow256(2) == 0x1_0000,
        pow256(3) == 0x100_0000,
        pow256(4) == 0x1_0000_0000,
        pow256(8) == 0x1_0000_0000_0000_0000,
{
    assert(pow256(0) == 1);
    assert(pow256(1) == 256);
    assert(pow256(2) == 0x1_0000);
    assert(pow256(3) == 0x100_0000);
    assert(pow256(4) == 0x1_0000_0000);
    assert(pow256(5) == 0x100_0000_0000);
    assert(pow256(6) == 0x1_0000_0000_0000);
    assert(pow256(7) == 0x100_0000_0000_0000);
    assert(pow256(8) == 0x1_0000_0000_0000_0000);
}

/// A long-form tag number: base-128 continuation bytes starting at
/// position `i`, with `acc` the value of the bytes already read and
/// `cnt` their count.  At most five bytes are accepted, and the number
/// must fit in 32 bits.
pub open spec fn spec_tag_long(s: Seq<u8>, i: int, acc: u32, cnt: int) -> Result<
    (int, u32),
    crate::error::BerErrorKind,
>
    decreases s.len() - i,
{
    if i >= s.len() {
        Err(crate::error::BerErrorKind::BufferTooShort)
    } else if cnt >= 5 {
        Err(crate::error::BerErrorKind::InvalidTag)
    } else if acc > 0x01ff_ffff {
        Err(crate::error::BerErrorKind::InvalidTag)
    } else {
        let b = s[i];
        let acc2 = (acc * 128 + (b & 0x7f)) as u32;
        if b & 0x80 == 0 {
            Ok((i + 1, acc2))
        } else {
            spec_tag_long(s, i + 1, acc2, cnt + 1)
        }
    }
}

/// The length octets starting at position `idx`: short form, or
/// definite long form whose big-endian value must be addressable.
/// The indefinite form and the reserved first octet 0xff are rejected.
pub open spec fn spec_parse_length(s: Seq<u8>, idx: int) -> Result<
    (int, usize),
    crate::error::BerErrorKind,
> {
    if idx >= s.len() {
        Err(crate::error::BerErrorKind::BufferTooShort)
    } else {
        let l0 = s[idx];
        if l0 < 0x80 {
            Ok((idx + 1, l0 as usize))
        } else if l0 == 0x80 {
            Err(crate::error::BerErrorKind::IndefiniteLength)
        } else if l0 == 0xff {
            Err(crate::error::BerErrorKind::InvalidLength)
        } else {
            let n = (l0 & 0x7f) as int;
            if idx + 1 + n > s.len() {
                Err(crate::error::BerErrorKind::BufferTooShort)
            } else {
                let lv = be_value(s.subrange(idx + 1, idx + 1 + n));
                if lv > usize::MAX {
                    Err(crate::error::BerErrorKind::InvalidLength)
                } else {
                    Ok((idx + 1 + n, lv as usize))
                }
            }
        }
    }
}

/// The identifier and length octets at the start of `s`: the header,
/// and the bytes that follow it (content first).
pub open spec fn spec_parse_header(s: Seq<u8>) -> Result<
    (Seq<u8>, BerHeader),
    crate::error::BerErrorKind,
> {
    if s.len() == 0 {
        Err(crate::error::BerErrorKind::BufferTooShort)
    } else {
        let b0 = s[0];
        let class = b0 >> 6;
        let constructed = (b0 >> 5) & 1 == 1;
        let low = b0 & 0x1f;
        let tag_res: Result<(int, u32), crate::error::BerErrorKind> = if low < 0x1f {
            Ok((1, low as u32))
        } else {
            spec_tag_long(s, 1, 0, 0)
        };
        match tag_res {
            Err(e) => Err(e),
            Ok((idx, tag)) => match spec_parse_length(s, idx) {
                Err(e) => Err(e),
                Ok((next, length)) => Ok(
                    (
                        s.skip(next),
                        BerHeader { class, constructed, tag, length },
                    ),
                ),
            },
        }
    }
}

/// Reads a long-form tag number; mirrors [`spec_tag_long`].
fn tag_long(s: &[u8], i: usize, acc: u32, cnt: usize) -> (r: Result<
    (usize, u32),
    crate::error::BerErrorKind,
>)
    ensures
        match r {
            Ok((j, t)) => spec_tag_long(s@, i as int, acc, cnt as int) == Ok::<
                (int, u32),
                crate::error::BerErrorKind,
            >((j as int, t)),
            Err(e) => spec_tag_long(s@, i as int, acc, cnt as int) == Err::<
                (int, u32),
                crate::error::BerErrorKind,
            >(e),
        },
    decreases s@.len() - i,
{
    if i >= s.len() {
        return Err(crate::error::BerErrorKind::BufferTooShort);
    }
    if cnt >= 5 {
        return Err(crate::error::BerErrorKind::InvalidTag);
    }
    if acc > 0x01ff_ffff {
        return Err(crate::error::BerErrorKind::InvalidTag);
    }
    let b = s[i];
    proof {
        assert(b & 0x7f <= 0x7f) by (bit_vector);
    }
    let acc2 = acc * 128 + ((b & 0x7f) as u32);
    if b & 0x80 == 0 {
        Ok((i + 1, acc2))
    } else {
        tag_long(s, i + 1, acc2, cnt + 1)
    }
}

/// Reads the length octets; mirrors [`spec_parse_length`].
fn parse_length(s: &[u8], idx: usize) -> (r: Result<
    (usize, usize),
    crate::error::BerErrorKind,
>)
    ensures
        match r {
            Ok((next, l)) => spec_parse_length(s@, idx as int) == Ok::<
                (int, usize),
                crate::error::BerErrorKind,
            >((next as int, l)),
            Err(e) => spec_parse_length(s@, idx as int) == Err::<
                (int, usize),
                crate::error::BerErrorKind,
            >(e),
        },
{
    if idx >= s.len() {
        return Err(crate::error::BerErrorKind::BufferTooShort);
    }
    let l0 = s[idx];
    if l0 < 0x80 {
        return Ok((idx + 1, l0 as usize));
    }
    if l0 == 0x80 {
        return Err(crate::error::BerErrorKind::IndefiniteLength);
    }
    if l0 == 0xff {
        return Err(crate::error::BerErrorKind::InvalidLength);
    }
    let n = (l0 & 0x7f) as usize;
    if n > s.len() - idx - 1 {
        return Err(crate::error::BerErrorKind::BufferTooShort);
    }
    let end = idx + 1 + n;
    let ghost all = s@.subrange(idx + 1 as int, end as int);
    // Skip leading zero bytes; they do not change the value.
    let mut j = idx + 1;
    while j < end && s[j] == 0
        invariant
            idx + 1 <= j <= end <= s@.len(),
            forall|k: int| idx + 1 <= k < j ==> s@[k] == 0,
        decreases end - j,
    {
        j += 1;
    }
    proof {
        assert(forall|k: int| 0 <= k < j - (idx + 1) ==> all[k] == 0);
        lemma_be_value_skip_zeros(all, j - (idx + 1));
        assert(all.subrange(j - (idx + 1), all.len() as int) =~= s@.subrange(
            j as int,
            end as int,
        ));
    }
    let sig = end - j;
    if sig > 8 {
        proof {
            let hi = s@.subrange(j as int, end as int);
            lemma_be_value_first_lower(hi);
            lemma_pow256_values();
            lemma_pow256_le(8, (sig - 1) as nat);
            assert(hi[0] >= 1);
            assert(hi[0] * pow256((sig - 1) as nat) >= 1 * pow256((sig - 1) as nat))
                by (nonlinear_arith)
                requires
                    hi[0] >= 1,
                    pow256((sig - 1) as nat) >= 0,
            ;
            assert(usize::MAX < 0x1_0000_0000_0000_0000);
        }
        return Err(crate::error::BerErrorKind::InvalidLength);
    }
    let mut acc: u64 = 0;
    let mut k = j;
    while k < end
        invariant
            j <= k <= end <= s@.len(),
            end - j <= 8,
            acc == be_value(s@.subrange(j as int, k as int)),
            acc < pow256((k - j) as nat),
        decreases end - k,
    {
        proof {
            lemma_be_value_step(s@, j as int, k as int);
            lemma_pow256_le((k + 1 - j) as nat, 8);
            lemma_pow256_values();
            assert(acc * 256 + s@[k as int] < pow256((k - j) as nat) * 256) by (nonlinear_arith)
                requires
                    acc < pow256((k - j) as nat),
                    s@[k as int] < 256,
            ;
        }
        acc = acc * 256 + (s[k] as u64);
        k += 1;
    }
    if acc > usize::MAX as u64 {
        return Err(crate::error::BerErrorKind::InvalidLength);
    }
    Ok((end, acc as usize))
}

/// `pow256` is monotone in its exponent.
proof fn lemma_pow256_le(a: nat, b: nat)
    requires
        a <= b,
    ensures
        pow256(a) <= pow256(b),
        pow256(a) >= 1,
    decreases b,
{
    if b > 0 {
        if a == b {
            lemma_pow256_le((a - 1) as nat, (b - 1) as nat);
        } else {
            lemma_pow256_le(a, (b - 1) as nat);
            assert(pow256(b) == 256 * pow256((b - 1) as nat));
        }
    }
}

/// Reads the identifier and length octets; mirrors
/// [`spec_parse_header`].
pub(crate) fn parse_header<'a>(s: &'a [u8]) -> (r: Result<
    (&'a [u8], BerHeader),
    crate::error::BerErrorKind,
>)
    ensures
        parsed(r) == spec_parse_header(s@),
{
    if s.len() == 0 {
        return Err(crate::error::BerErrorKind::BufferTooShort);
    }
    let b0 = s[0];
    let class = b0 >> 6;
    let constructed = ((b0 >> 5) & 1) == 1;
    let low = b0 & 0x1f;
    let (idx, tag): (usize, u32) = if low < 0x1f {
        (1, low as u32)
    } else {
        match tag_long(s, 1, 0, 0) {
            Ok(p) => p,
            Err(e) => {
                return Err(e);
            },
        }
    };
    match parse_length(s, idx) {
        Ok((next, length)) => {
            proof {
                assert(next <= s@.len());
            }
            Ok((slice_subrange(s, next, s.len()), BerHeader { class, constructed, tag, length }))
        },
        Err(e) => Err(e),
    }
}

/// Splits `n` content bytes off the front of `s`, failing when the
/// buffer is shorter than `n`.
pub(crate) fn take_content<'a>(s: &'a [u8], n: usize) -> (r: Result<
    (&'a [u8], &'a [u8]),
    crate::error::BerErrorKind,
>)
    ensures
        match r {
            Ok((content, rest)) => n <= s@.len() && content@ == s@.take(n as int) && rest@
                == s@.skip(n as int),
            Err(e) => n > s@.len() && e == crate::error::BerErrorKind::BufferTooShort,
        },
{
    if n <= s.len() {
        Ok((slice_subrange(s, 0, n), slice_subrange(s, n, s.len())))
    } else {
        Err(crate::error::BerErrorKind::BufferTooShort)
    }
}

/// An unsigned 32-bit value from INTEGER content: big-endian, rejected
/// when empty, negative, or above `u32::MAX`.
pub open spec fn spec_u32_from_content(c: Seq<u8>) -> Result<u32, BerErrorKind> {
    if c.len() == 0 {
        Err(BerErrorKind::InvalidInteger)
    } else if c[0] & 0x80 != 0 {
        Err(BerErrorKind::IntegerNegative)
    } else if be_value(c) > u32::MAX {
        Err(BerErrorKind::IntegerTooLarge)
    } else {
        Ok(be_value(c) as u32)
    }
}

/// An unsigned 64-bit value from INTEGER content: big-endian, rejected
/// when empty, negative, or above `u64::MAX`.
pub open spec fn spec_u64_from_content(c: Seq<u8>) -> Result<u64, BerErrorKind> {
    if c.len() == 0 {
        Err(BerErrorKind::InvalidInteger)
    } else if c[0] & 0x80 != 0 {
        Err(BerErrorKind::IntegerNegative)
    } else if be_value(c) > u64::MAX {
        Err(BerErrorKind::IntegerTooLarge)
    } else {
        Ok(be_value(c) as u64)
    }
}

/// A signed 32-bit value from INTEGER content: big-endian two's
/// complement of at most four octets (the minimal representation of
/// any `i32`), rejected when empty or longer.
pub open spec fn spec_i32_from_content(c: Seq<u8>) -> Result<i32, BerErrorKind> {
    if c.len() == 0 {
        Err(BerErrorKind::InvalidInteger)
    } else if c.len() > 4 {
        Err(BerErrorKind::IntegerTooLarge)
    } else if c[0] & 0x80 != 0 {
        Ok((be_value(c) - pow256(c.len())) as i32)
    } else {
        Ok(be_value(c) as i32)
    }
}

/// Decodes unsigned INTEGER content; mirrors
/// [`spec_u32_from_content`].
pub(crate) fn u32_from_content(c: &[u8]) -> (r: Result<u32, BerErrorKind>)
    ensures
        r == spec_u32_from_content(c@),
{
    if c.len() == 0 {
        return Err(BerErrorKind::InvalidInteger);
    }
    if c[0] & 0x80 != 0 {
        return Err(BerErrorKind::IntegerNegative);
    }
    let mut j: usize = 0;
    while j < c.len() && c[j] == 0
        invariant
            0 <= j <= c@.len(),
            forall|k: int| 0 <= k < j ==> c@[k] == 0,
        decreases c@.len() - j,
    {
        j += 1;
    }
    proof {
        lemma_be_value_skip_zeros(c@, j as int);
        lemma_pow256_values();
    }
    let sig = c.len() - j;
    if sig > 4 {
        proof {
            let hi = c@.subrange(j as int, c@.len() as int);
            lemma_be_value_first_lower(hi);
            lemma_pow256_le(4, (sig - 1) as nat);
            assert(hi[0] * pow256((sig - 1) as nat) >= 1 * pow256((sig - 1) as nat))
                by (nonlinear_arith)
                requires
                    hi[0] >= 1,
                    pow256((sig - 1) as nat) >= 0,
            ;
        }
        return Err(BerErrorKind::IntegerTooLarge);
    }
    let mut acc: u32 = 0;
    let mut k = j;
    while k < c.len()
        invariant
            j <= k <= c@.len(),
            c@.len() - j <= 4,
            acc == be_value(c@.subrange(j as int, k as int)),
            acc < pow256((k - j) as nat),
        decreases c@.len() - k,
    {
        proof {
            lemma_be_value_step(c@, j as int, k as int);
            lemma_pow256_le((k + 1 - j) as nat, 4);
            lemma_pow256_values();
            assert(acc * 256 + c@[k as int] < pow256((k - j) as nat) * 256) by (nonlinear_arith)
                requires
                    acc < pow256((k - j) as nat),
                    c@[k as int] < 256,
            ;
        }
        acc = acc * 256 + (c[k] as u32);
        k += 1;
    }
    proof {
        assert(c@.subrange(j as int, c@.len() as int) =~= c@.skip(j as int));
        lemma_pow256_le((c@.len() - j) as nat, 4);
    }
    Ok(acc)
}

/// Decodes unsigned INTEGER content; mirrors
/// [`spec_u64_from_content`].
pub(crate) fn u64_from_content(c: &[u8]) -> (r: Result<u64, BerErrorKind>)
    ensures
        r == spec_u64_from_content(c@),
{
    if c.len() == 0 {
        return Err(BerErrorKind::InvalidInteger);
    }
    if c[0] & 0x80 != 0 {
        return Err(BerErrorKind::IntegerNegative);
    }
    let mut j: usize = 0;
    while j < c.len() && c[j] == 0
        invariant
            0 <= j <= c@.len(),
            forall|k: int| 0 <= k < j ==> c@[k] == 0,
        decreases c@.len() - j,
    {
        j += 1;
    }
    proof {
        lemma_be_value_skip_zeros(c@, j as int);
        lemma_pow256_values();
    }
    let sig = c.len() - j;
    if sig > 8 {
        proof {
            let hi = c@.subrange(j as int, c@.len() as int);
            lemma_be_value_first_lower(hi);
            lemma_pow256_le(8, (sig - 1) as nat);
            assert(hi[0] * pow256((sig - 1) as nat) >= 1 * pow256((sig - 1) as nat))
                by (nonlinear_arith)
                requires
                    hi[0] >= 1,
                    pow256((sig - 1) as nat) >= 0,
            ;
        }
        return Err(BerErrorKind::IntegerTooLarge);
    }
    let mut acc: u64 = 0;
    let mut k = j;
    while k < c.len()
        invariant
            j <= k <= c@.len(),
            c@.len() - j <= 8,
            acc == be_value(c@.subrange(j as int, k as int)),
            acc < pow256((k - j) as nat),
        decreases c@.len() - k,
    {
        proof {
            lemma_be_value_step(c@, j as int, k as int);
            lemma_pow256_le((k + 1 - j) as nat, 8);
            lemma_pow256_values();
            assert(acc * 256 + c@[k as int] < pow256((k - j) as nat) * 256) by (nonlinear_arith)
                requires
                    acc < pow256((k - j) as nat),
                    c@[k as int] < 256,
            ;
        }
        acc = acc * 256 + (c[k] as u64);
        k += 1;
    }
    proof {
        assert(c@.subrange(j as int, c@.len() as int) =~= c@.skip(j as int));
        lemma_pow256_le((c@.len() - j) as nat, 8);
    }
    Ok(acc)
}

/// Decodes signed INTEGER content; mirrors [`spec_i32_from_content`].
pub(crate) fn i32_from_content(c: &[u8]) -> (r: Result<i32, BerErrorKind>)
    ensures
        r == spec_i32_from_content(c@),
{
    if c.len() == 0 {
        return Err(BerErrorKind::InvalidInteger);
    }
    if c.len() > 4 {
        return Err(BerErrorKind::IntegerTooLarge);
    }
    let mut acc: u32 = 0;
    let mut k: usize = 0;
    while k < c.len()
        invariant
            0 <= k <= c@.len() <= 4,
            acc == be_value(c@.subrange(0, k as int)),
            acc < pow256(k as nat),
        decreases c@.len() - k,
    {
        proof {
            lemma_be_value_step(c@, 0, k as int);
            lemma_pow256_le((k + 1) as nat, 4);
            lemma_pow256_values();
            assert(acc * 256 + c@[k as int] < pow256(k as nat) * 256) by (nonlinear_arith)
                requires
                    acc < pow256(k as nat),
                    c@[k as int] < 256,
            ;
        }
        acc = acc * 256 + (c[k] as u32);
        k += 1;
    }
    proof {
        assert(c@.subrange(0, c@.len() as int) =~= c@);
        lemma_pow256_values();
    }
    let len = c.len();
    let m: u64 = if len == 1 {
        0x100
    } else if len == 2 {
        0x1_0000
    } else if len == 3 {
        0x100_0000
    } else {
        0x1_0000_0000
    };
    let b0 = c[0];
    proof {
        assert(b0 & 0x80 != 0 ==> b0 >= 0x80) by (bit_vector);
        assert(b0 & 0x80 == 0 ==> b0 < 0x80) by (bit_vector);
    }
    if b0 & 0x80 != 0 {
        proof {
            lemma_be_value_first_lower(c@);
            lemma_pow256_le((c@.len() - 1) as nat, 4);
            assert(c@[0] * pow256((c@.len() - 1) as nat) >= 0x80 * pow256((c@.len() - 1) as nat))
                by (nonlinear_arith)
                requires
                    c@[0] >= 0x80,
                    pow256((c@.len() - 1) as nat) >= 0,
            ;
            assert(m == pow256(c@.len()));
            assert(pow256(c@.len()) == 256 * pow256((c@.len() - 1) as nat));
        }
        let v = (acc as i64) - (m as i64);
        Ok(v as i32)
    } else {
        proof {
            lemma_be_value_first_upper(c@);
            lemma_pow256_le((c@.len() - 1) as nat, 3);
            assert((c@[0] + 1) * pow256((c@.len() - 1) as nat) <= 0x80 * pow256(
                (c@.len() - 1) as nat,
            )) by (nonlinear_arith)
                requires
                    c@[0] + 1 <= 0x80,
                    pow256((c@.len() - 1) as nat) >= 0,
            ;
            assert(0x80 * pow256((c@.len() - 1) as nat) <= 0x80 * pow256(3)) by (nonlinear_arith)
                requires
                    pow256((c@.len() - 1) as nat) <= pow256(3),
            ;
            assert(pow256(3) == 0x100_0000);
        }
        Ok(acc as i32)
    }
}

/// One BER element taken verbatim: its header fields and its raw
/// content, borrowed from the input.
#[derive(Clone, Copy, Debug, PartialEq, Eq)]
pub struct Any<'a> {
    pub class: u8,
    pub constructed: bool,
    pub tag: u32,
    pub data: &'a [u8],
}

/// The mathematical view of [`Any`]: the same header fields over a
/// byte sequence.
pub struct SpecAny {
    pub class: u8,
    pub constructed: bool,
    pub tag: u32,
    pub data: Seq<u8>,
}

impl<'a> DeepView for Any<'a> {
    type V = SpecAny;

    open spec fn deep_view(&self) -> SpecAny {
        SpecAny {
            class: self.class,
            constructed: self.constructed,
            tag: self.tag,
            data: self.data@,
        }
    }
}

/// One element taken verbatim: header fields plus content, and the
/// bytes after the element.
pub open spec fn spec_parse_any(s: Seq<u8>) -> Result<(Seq<u8>, SpecAny), BerErrorKind> {
    match spec_parse_header(s) {
        Err(e) => Err(e),
        Ok((after, h)) => {
            if h.length > after.len() {
                Err(BerErrorKind::BufferTooShort)
            } else {
                Ok(
                    (
                        after.skip(h.length as int),
                        SpecAny {
                            class: h.class,
                            constructed: h.constructed,
                            tag: h.tag,
                            data: after.take(h.length as int),
                        },
                    ),
                )
            }
        },
    }
}

/// Reads one element verbatim; mirrors [`spec_parse_any`].
pub(crate) fn parse_any<'a>(s: &'a [u8]) -> (r: Result<(&'a [u8], Any<'a>), BerErrorKind>)
    ensures
        parsed(r) == spec_parse_any(s@),
{
    match parse_header(s) {
        Err(e) => Err(e),
        Ok((after, h)) => match take_content(after, h.length) {
            Err(e) => Err(e),
            Ok((content, rest)) => Ok(
                (
                    rest,
                    Any { class: h.class, constructed: h.constructed, tag: h.tag, data: content },
                ),
            ),
        },
    }
}

/// One framed element whose class, constructed bit and tag number must
/// equal the given ones: its content, and the bytes after the element.
pub open spec fn spec_parse_framed(
    s: Seq<u8>,
    class: u8,
    constructed: bool,
    tag: u32,
) -> Result<(Seq<u8>, Seq<u8>), BerErrorKind> {
    match spec_parse_header(s) {
        Err(e) => Err(e),
        Ok((after, h)) => {
            if h.class != class || h.constructed != constructed || h.tag != tag {
                Err(BerErrorKind::UnexpectedTag)
            } else if h.length > after.len() {
                Err(BerErrorKind::BufferTooShort)
            } else {
                Ok((after.take(h.length as int), after.skip(h.length as int)))
            }
        },
    }
}

/// Reads one framed element; mirrors [`spec_parse_framed`].  Returns
/// the content and the bytes after the element.
pub(crate) fn parse_framed<'a>(
    s: &'a [u8],
    class: u8,
    constructed: bool,
    tag: u32,
) -> (r: Result<(&'a [u8], &'a [u8]), BerErrorKind>)
    ensures
        match r {
            Ok((content, rest)) => spec_parse_framed(s@, class, constructed, tag) == Ok::<
                (Seq<u8>, Seq<u8>),
                BerErrorKind,
            >((content@, rest@)),
            Err(e) => spec_parse_framed(s@, class, constructed, tag) == Err::<
                (Seq<u8>, Seq<u8>),
                BerErrorKind,
            >(e),
        },
{
    match parse_header(s) {
        Err(e) => Err(e),
        Ok((after, h)) => {
            if h.class != class || h.constructed != constructed || h.tag != tag {
                Err(BerErrorKind::UnexpectedTag)
            } else {
                match take_content(after, h.length) {
                    Err(e) => Err(e),
                    Ok((content, rest)) => Ok((content, rest)),
                }
            }
        },
    }
}

/// A successful long-form tag read moves the position forward and
/// stays inside the input.
pub(crate) proof fn lemma_spec_tag_long_advances(s: Seq<u8>, i: int, acc: u32, cnt: int)
    ensures
        spec_tag_long(s, i, acc, cnt) matches Ok((j, t)) ==> i < j <= s.len(),
    decreases s.len() - i,
{
    if i < s.len() {
        let b = s[i];
        let acc2 = (acc * 128 + (b & 0x7f)) as u32;
        if cnt < 5 && acc <= 0x01ff_ffff && b & 0x80 != 0 {
            lemma_spec_tag_long_advances(s, i + 1, acc2, cnt + 1);
        }
    }
}

/// A successful length read moves the position forward and stays
/// inside the input.
pub(crate) proof fn lemma_spec_parse_length_bounds(s: Seq<u8>, idx: int)
    ensures
        spec_parse_length(s, idx) matches Ok((next, l)) ==> idx < next <= s.len(),
{
}

/// A successful header read consumes at least one byte, and what
/// remains is a suffix of the input.
pub(crate) proof fn lemma_spec_parse_header_consumes(s: Seq<u8>)
    ensures
        spec_parse_header(s) matches Ok((after, h)) ==> after.len() < s.len(),
        (match spec_parse_header(s) {
            Ok((after, h)) => exists|n: int| 0 < n <= s.len() && after == s.skip(n),
            Err(_) => true,
        }),
{
    if s.len() > 0 {
        let b0 = s[0];
        let low = b0 & 0x1f;
        if low < 0x1f {
            lemma_spec_parse_length_bounds(s, 1);
        } else {
            lemma_spec_tag_long_advances(s, 1, 0, 0);
            match spec_tag_long(s, 1, 0, 0) {
                Ok((idx, tag)) => lemma_spec_parse_length_bounds(s, idx),
                Err(_) => (),
            }
        }
    }
}

/// A successful framed read consumes at least one byte, and both the
/// content and the rest are shorter than the input.
pub(crate) proof fn lemma_spec_parse_framed_consumes(
    s: Seq<u8>,
    class: u8,
    constructed: bool,
    tag: u32,
)
    ensures
        spec_parse_framed(s, class, constructed, tag) matches Ok((content, rest)) ==> content.len()
            < s.len() && rest.len() < s.len(),
{
    lemma_spec_parse_header_consumes(s);
}

/// The universal class number.
pub const CLASS_UNIVERSAL: u8 = 0;

/// The application class number.
pub const CLASS_APPLICATION: u8 = 1;

/// The context-specific class number.
pub const CLASS_CONTEXT: u8 = 2;

/// The universal tag of BIT STRING.
pub const TAG_BITSTRING: u32 = 3;

/// The universal tag of INTEGER.
pub const TAG_INTEGER: u32 = 2;

/// The universal tag of OCTET STRING.
pub const TAG_OCTETSTRING: u32 = 4;

/// The universal tag of NULL.
pub const TAG_NULL: u32 = 5;

/// The universal tag of OBJECT IDENTIFIER.
pub const TAG_OID: u32 = 6;

/// The universal tag of SEQUENCE.
pub const TAG_SEQUENCE: u32 = 16;

/// A primitive universal INTEGER holding an unsigned 32-bit value.
pub open spec fn spec_parse_ber_u32(s: Seq<u8>) -> Result<(Seq<u8>, u32), BerErrorKind> {
    match spec_parse_framed(s, CLASS_UNIVERSAL, false, TAG_INTEGER) {
        Err(e) => Err(e),
        Ok((content, rest)) => match spec_u32_from_content(content) {
            Err(e) => Err(e),
            Ok(v) => Ok((rest, v)),
        },
    }
}

/// Reads an INTEGER as `u32`; mirrors [`spec_parse_ber_u32`].
pub(crate) fn parse_ber_u32<'a>(s: &'a [u8]) -> (r: Result<(&'a [u8], u32), BerErrorKind>)
    ensures
        parsed(r) == spec_parse_ber_u32(s@),
{
    match parse_framed(s, CLASS_UNIVERSAL, false, TAG_INTEGER) {
        Err(e) => Err(e),
        Ok((content, rest)) => match u32_from_content(content) {
            Err(e) => Err(e),
            Ok(v) => Ok((rest, v)),
        },
    }
}

/// A primitive universal OCTET STRING; the value is its raw content.
pub open spec fn spec_parse_octetstring(s: Seq<u8>) -> Result<(Seq<u8>, Seq<u8>), BerErrorKind> {
    match spec_parse_framed(s, CLASS_UNIVERSAL, false, TAG_OCTETSTRING) {
        Err(e) => Err(e),
        Ok((content, rest)) => Ok((rest, content)),
    }
}

/// Reads an OCTET STRING's content; mirrors
/// [`spec_parse_octetstring`].
pub(crate) fn parse_octetstring<'a>(s: &'a [u8]) -> (r: Result<
    (&'a [u8], &'a [u8]),
    BerErrorKind,
>)
    ensures
        match r {
            Ok((rest, content)) => spec_parse_octetstring(s@) == Ok::<
                (Seq<u8>, Seq<u8>),
                BerErrorKind,
            >((rest@, content@)),
            Err(e) => spec_parse_octetstring(s@) == Err::<(Seq<u8>, Seq<u8>), BerErrorKind>(e),
        },
{
    match parse_framed(s, CLASS_UNIVERSAL, false, TAG_OCTETSTRING) {
        Err(e) => Err(e),
        Ok((content, rest)) => Ok((rest, content)),
    }
}

/// Relies on `core::str::from_utf8`: it returns `Ok` exactly on valid
/// UTF-8 input, and the resulting string holds the decoded characters,
/// as given by vstd's UTF-8 model.
#[verifier::external_body]
fn utf8_from_bytes<'a>(b: &'a [u8]) -> (r: Option<&'a str>)
    ensures
        match r {
            Some(s) => vstd::utf8::valid_utf8(b@) && s@ == vstd::utf8::decode_utf8(b@),
            None => !vstd::utf8::valid_utf8(b@),
        },
{
    core::str::from_utf8(b).ok()
}

/// A primitive universal OCTET STRING holding UTF-8 text; the value is
/// the decoded character sequence.
pub open spec fn spec_parse_octetstring_utf8(s: Seq<u8>) -> Result<
    (Seq<u8>, Seq<char>),
    BerErrorKind,
> {
    match spec_parse_octetstring(s) {
        Err(e) => Err(e),
        Ok((rest, content)) => {
            if vstd::utf8::valid_utf8(content) {
                Ok((rest, vstd::utf8::decode_utf8(content)))
            } else {
                Err(BerErrorKind::InvalidCharset)
            }
        },
    }
}

/// Reads an OCTET STRING as an owned UTF-8 string; mirrors
/// [`spec_parse_octetstring_utf8`].
pub(crate) fn parse_octetstring_utf8<'a>(s: &'a [u8]) -> (r: Result<
    (&'a [u8], String),
    BerErrorKind,
>)
    ensures
        parsed(r) == spec_parse_octetstring_utf8(s@),
{
    match parse_octetstring(s) {
        Err(e) => Err(e),
        Ok((rest, content)) => match utf8_from_bytes(content) {
            Some(text) => Ok((rest, text.to_owned())),
            None => Err(BerErrorKind::InvalidCharset),
        },
    }
}

} // verus!
