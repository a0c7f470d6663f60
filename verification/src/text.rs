//! Verified helpers over byte sequences: prefix tests, NUL truncation,
//! ASCII-whitespace trimming, splitting and numeric parsing. The discovery
//! and identification code reads hardware-provided byte strings through these.

use vstd::prelude::*;

verus! {

/// `s` begins with `prefix`.
pub open spec fn spec_starts_with(s: Seq<u8>, prefix: Seq<u8>) -> bool {
    s.len() >= prefix.len() && forall|i: int| 0 <= i < prefix.len() ==> s[i] == prefix[i]
}

/// Prefix test on byte vectors.
pub fn starts_with_bytes(s: &Vec<u8>, prefix: &Vec<u8>) -> (r: bool)
    ensures
        r == spec_starts_with(s@, prefix@),
{
    if s.len() < prefix.len() {
        return false;
    }
    let mut i: usize = 0;
    while i < prefix.len()
        invariant
            0 <= i <= prefix@.len() <= s@.len(),
            forall|j: int| 0 <= j < i ==> s@[j] == prefix@[j],
        decreases prefix@.len() - i,
    {
        if s[i] != prefix[i] {
            return false;
        }
        i = i + 1;
    }
    true
}

/// The bytes of a hardware-reported identifier block, cut at the first NUL;
/// the whole block stands if no NUL appears.
pub fn truncate_at_nul(block: &Vec<u8>) -> (r: Vec<u8>)
    ensures
        r@.len() <= block@.len(),
        r@ == block@.subrange(0, r@.len() as int),
        forall|i: int| 0 <= i < r@.len() ==> block@[i] != 0,
        r@.len() < block@.len() ==> block@[r@.len() as int] == 0,
{
    let mut out: Vec<u8> = Vec::new();
    let mut i: usize = 0;
    while i < block.len()
        invariant
            0 <= i <= block@.len(),
            out@.len() == i,
            out@ == block@.subrange(0, i as int),
            forall|j: int| 0 <= j < i ==> block@[j] != 0,
        decreases block@.len() - i,
    {
        let b = block[i];
        if b == 0 {
            return out;
        }
        out.push(b);
        assert(out@ =~= block@.subrange(0, i + 1 as int));
        i = i + 1;
    }
    out
}

/// ASCII whitespace, as the sysfs text files use it.
pub open spec fn spec_is_ascii_space(b: u8) -> bool {
    b == 0x20 || b == 0x09 || b == 0x0A || b == 0x0D
}

/// `s` with leading ASCII whitespace removed.
pub open spec fn spec_trim_front(s: Seq<u8>) -> Seq<u8>
    decreases s.len(),
{
    if s.len() > 0 && spec_is_ascii_space(s[0]) {
        spec_trim_front(s.drop_first())
    } else {
        s
    }
}

/// `s` with trailing ASCII whitespace removed.
pub open spec fn spec_trim_back(s: Seq<u8>) -> Seq<u8>
    decreases s.len(),
{
    if s.len() > 0 && spec_is_ascii_space(s.last()) {
        spec_trim_back(s.drop_last())
    } else {
        s
    }
}

/// `s` with ASCII whitespace removed from both ends.
pub open spec fn spec_trim(s: Seq<u8>) -> Seq<u8> {
    spec_trim_back(spec_trim_front(s))
}

/// Whether the byte is ASCII whitespace.
fn is_ascii_space(b: u8) -> (r: bool)
    ensures
        r == spec_is_ascii_space(b),
{
    b == 0x20 || b == 0x09 || b == 0x0A || b == 0x0D
}

/// Removes ASCII whitespace from both ends of `v`.
pub fn trim_ascii(v: &Vec<u8>) -> (r: Vec<u8>)
    ensures
        r@ == spec_trim(v@),
{
    let mut lo: usize = 0;
    proof {
        assert(v@.skip(0) =~= v@);
    }
    while lo < v.len() && is_ascii_space(v[lo])
        invariant
            0 <= lo <= v@.len(),
            spec_trim_front(v@) == spec_trim_front(v@.skip(lo as int)),
        decreases v@.len() - lo,
    {
        proof {
            assert(v@.skip(lo as int).drop_first() =~= v@.skip(lo + 1));
        }
        lo = lo + 1;
    }
    proof {
        assert(v@.skip(lo as int).len() == 0 ==> v@.skip(lo as int) =~= Seq::<u8>::empty());
        assert(spec_trim_front(v@) == v@.skip(lo as int));
    }
    let mut hi: usize = v.len();
    while hi > lo && is_ascii_space(v[hi - 1])
        invariant
            lo <= hi <= v@.len(),
            spec_trim_back(v@.skip(lo as int)) == spec_trim_back(
                v@.subrange(lo as int, hi as int),
            ),
        decreases hi,
    {
        proof {
            assert(v@.subrange(lo as int, hi as int).drop_last() =~= v@.subrange(
                lo as int,
                hi - 1,
            ));
        }
        hi = hi - 1;
    }
    proof {
        assert(v@.skip(lo as int) =~= v@.subrange(lo as int, v@.len() as int));
        assert(spec_trim(v@) == v@.subrange(lo as int, hi as int));
    }
    let mut out: Vec<u8> = Vec::new();
    let mut i: usize = lo;
    while i < hi
        invariant
            lo <= i <= hi <= v@.len(),
            out@ =~= v@.subrange(lo as int, i as int),
        decreases hi - i,
    {
        out.push(v[i]);
        assert(out@ =~= v@.subrange(lo as int, i + 1));
        i = i + 1;
    }
    out
}

/// Index of the first occurrence of `sep` in `s`, or `s.len()` if absent.
pub open spec fn spec_first_sep(s: Seq<u8>, sep: u8) -> int
    decreases s.len(),
{
    if s.len() == 0 {
        0
    } else if s[0] == sep {
        0
    } else {
        1 + spec_first_sep(s.drop_first(), sep)
    }
}

/// `s` split at every occurrence of `sep`: consecutive separators yield
/// empty pieces, as does a leading or trailing separator.
pub open spec fn spec_split(s: Seq<u8>, sep: u8) -> Seq<Seq<u8>>
    decreases s.len(),
{
    let i = spec_first_sep(s, sep);
    if !(0 <= i < s.len()) {
        seq![s]
    } else {
        seq![s.take(i)] + spec_split(s.skip(i + 1), sep)
    }
}

/// The first-separator index is the index of the first occurrence: no
/// earlier index holds `sep`, and the index itself does unless `sep` is
/// absent altogether.
proof fn lemma_first_sep_characterize(s: Seq<u8>, sep: u8, k: int)
    requires
        0 <= k <= s.len(),
        forall|j: int| 0 <= j < k ==> s[j] != sep,
        k < s.len() ==> s[k] == sep,
    ensures
        spec_first_sep(s, sep) == k,
    decreases s.len(),
{
    if s.len() > 0 && s[0] != sep {
        assert(k > 0);
        lemma_first_sep_characterize(s.drop_first(), sep, k - 1);
    }
}

/// An ASCII hexadecimal digit, either case.
pub open spec fn spec_is_hex_digit(b: u8) -> bool {
    (0x30 <= b <= 0x39) || (0x41 <= b <= 0x46) || (0x61 <= b <= 0x66)
}

/// Value of one hexadecimal digit.
pub open spec fn spec_hex_digit_value(b: u8) -> int {
    if 0x30 <= b <= 0x39 {
        b - 0x30
    } else if 0x41 <= b <= 0x46 {
        b - 0x41 + 10
    } else {
        b - 0x61 + 10
    }
}

/// Every byte of `s` is a hexadecimal digit.
pub open spec fn spec_all_hex_digits(s: Seq<u8>) -> bool {
    forall|i: int| 0 <= i < s.len() ==> spec_is_hex_digit(#[trigger] s[i])
}

/// Value of `s` read as a big-endian hexadecimal numeral.
pub open spec fn spec_hex_value(s: Seq<u8>) -> int
    decreases s.len(),
{
    if s.len() == 0 {
        0
    } else {
        spec_hex_value(s.drop_last()) * 16 + spec_hex_digit_value(s.last())
    }
}

/// An ASCII decimal digit.
pub open spec fn spec_is_dec_digit(b: u8) -> bool {
    0x30 <= b <= 0x39
}

/// Every byte of `s` is a decimal digit.
pub open spec fn spec_all_dec_digits(s: Seq<u8>) -> bool {
    forall|i: int| 0 <= i < s.len() ==> spec_is_dec_digit(#[trigger] s[i])
}

/// Value of `s` read as a decimal numeral.
pub open spec fn spec_dec_value(s: Seq<u8>) -> int
    decreases s.len(),
{
    if s.len() == 0 {
        0
    } else {
        spec_dec_value(s.drop_last()) * 10 + (s.last() - 0x30)
    }
}

/// A hexadecimal numeral is never negative.
proof fn lemma_hex_value_nonneg(s: Seq<u8>)
    requires
        spec_all_hex_digits(s),
    ensures
        spec_hex_value(s) >= 0,
    decreases s.len(),
{
    if s.len() > 0 {
        assert(spec_all_hex_digits(s.drop_last()));
        lemma_hex_value_nonneg(s.drop_last());
    }
}

/// Extending a hexadecimal numeral on the right never shrinks its value.
proof fn lemma_hex_value_prefix_le(s: Seq<u8>, k: int)
    requires
        spec_all_hex_digits(s),
        0 <= k <= s.len(),
    ensures
        spec_hex_value(s.take(k)) <= spec_hex_value(s),
    decreases s.len() - k,
{
    if k < s.len() {
        lemma_hex_value_prefix_le(s, k + 1);
        assert(s.take(k + 1).drop_last() =~= s.take(k));
        assert(spec_all_hex_digits(s.take(k)));
        lemma_hex_value_nonneg(s.take(k));
        assert(spec_hex_value(s.take(k + 1)) == spec_hex_value(s.take(k)) * 16
            + spec_hex_digit_value(s.take(k + 1).last()));
    } else {
        assert(s.take(k) =~= s);
    }
}

/// A decimal numeral is never negative.
proof fn lemma_dec_value_nonneg(s: Seq<u8>)
    requires
        spec_all_dec_digits(s),
    ensures
        spec_dec_value(s) >= 0,
    decreases s.len(),
{
    if s.len() > 0 {
        assert(spec_all_dec_digits(s.drop_last()));
        lemma_dec_value_nonneg(s.drop_last());
    }
}

/// Extending a decimal numeral on the right never shrinks its value.
proof fn lemma_dec_value_prefix_le(s: Seq<u8>, k: int)
    requires
        spec_all_dec_digits(s),
        0 <= k <= s.len(),
    ensures
        spec_dec_value(s.take(k)) <= spec_dec_value(s),
    decreases s.len() - k,
{
    if k < s.len() {
        lemma_dec_value_prefix_le(s, k + 1);
        assert(s.take(k + 1).drop_last() =~= s.take(k));
        assert(spec_all_dec_digits(s.take(k)));
        lemma_dec_value_nonneg(s.take(k));
        assert(spec_dec_value(s.take(k + 1)) == spec_dec_value(s.take(k)) * 10 + (s.take(
            k + 1,
        ).last() - 0x30));
    } else {
        assert(s.take(k) =~= s);
    }
}

/// Parses a non-empty all-hexadecimal numeral into a `u32`; anything else,
/// and any value beyond `u32`, is `None`.
pub fn parse_hex_u32(digits: &Vec<u8>) -> (r: Option<u32>)
    ensures
        r is Some <==> digits@.len() > 0 && spec_all_hex_digits(digits@) && spec_hex_value(
            digits@,
        ) <= u32::MAX,
        r matches Some(v) ==> v == spec_hex_value(digits@),
{
    if digits.len() == 0 {
        return None;
    }
    let mut acc: u32 = 0;
    let mut i: usize = 0;
    while i < digits.len()
        invariant
            0 <= i <= digits@.len(),
            spec_all_hex_digits(digits@.take(i as int)),
            acc == spec_hex_value(digits@.take(i as int)),
        decreases digits@.len() - i,
    {
        let b = digits[i];
        let digit: u8 = if 0x30 <= b && b <= 0x39 {
            b - 0x30
        } else if 0x41 <= b && b <= 0x46 {
            b - 0x41 + 10
        } else if 0x61 <= b && b <= 0x66 {
            b - 0x61 + 10
        } else {
            return None;
        };
        let wide: u64 = acc as u64 * 16 + digit as u64;
        proof {
            assert(digits@.take(i + 1).drop_last() =~= digits@.take(i as int));
            assert(spec_all_hex_digits(digits@.take(i + 1)));
        }
        if wide > u32::MAX as u64 {
            proof {
                if spec_all_hex_digits(digits@) {
                    lemma_hex_value_prefix_le(digits@, i + 1);
                    assert(spec_hex_value(digits@) > u32::MAX);
                }
            }
            return None;
        }
        acc = wide as u32;
        i = i + 1;
    }
    proof {
        assert(digits@.take(digits@.len() as int) =~= digits@);
    }
    Some(acc)
}

/// Parses a non-empty all-decimal numeral into a `u8`; anything else, and
/// any value beyond `u8`, is `None`.
pub fn parse_dec_u8(digits: &Vec<u8>) -> (r: Option<u8>)
    ensures
        r is Some <==> digits@.len() > 0 && spec_all_dec_digits(digits@) && spec_dec_value(
            digits@,
        ) <= u8::MAX,
        r matches Some(v) ==> v == spec_dec_value(digits@),
{
    if digits.len() == 0 {
        return None;
    }
    let mut acc: u8 = 0;
    let mut i: usize = 0;
    while i < digits.len()
        invariant
            0 <= i <= digits@.len(),
            spec_all_dec_digits(digits@.take(i as int)),
            acc == spec_dec_value(digits@.take(i as int)),
        decreases digits@.len() - i,
    {
        let b = digits[i];
        if !(0x30 <= b && b <= 0x39) {
            return None;
        }
        let digit: u8 = b - 0x30;
        let wide: u16 = acc as u16 * 10 + digit as u16;
        proof {
            assert(digits@.take(i + 1).drop_last() =~= digits@.take(i as int));
            assert(spec_all_dec_digits(digits@.take(i + 1)));
        }
        if wide > u8::MAX as u16 {
            proof {
                if spec_all_dec_digits(digits@) {
                    lemma_dec_value_prefix_le(digits@, i + 1);
                    assert(spec_dec_value(digits@) > u8::MAX);
                }
            }
            return None;
        }
        acc = wide as u8;
        i = i + 1;
    }
    proof {
        assert(digits@.take(digits@.len() as int) =~= digits@);
    }
    Some(acc)
}

/// Splits `v` at every occurrence of `sep`.
pub fn split_bytes(v: &Vec<u8>, sep: u8) -> (r: Vec<Vec<u8>>)
    ensures
        r@.map_values(|piece: Vec<u8>| piece@) == spec_split(v@, sep),
{
    let mut pieces: Vec<Vec<u8>> = Vec::new();
    let mut current: Vec<u8> = Vec::new();
    let mut start: usize = 0;
    let mut i: usize = 0;
    proof {
        assert(v@.skip(0) =~= v@);
        assert(pieces@.map_values(|piece: Vec<u8>| piece@) =~= Seq::<Seq<u8>>::empty());
        assert(Seq::<Seq<u8>>::empty() + spec_split(v@, sep) =~= spec_split(v@, sep));
    }
    while i < v.len()
        invariant
            0 <= start <= i <= v@.len(),
            current@ =~= v@.subrange(start as int, i as int),
            forall|j: int| start <= j < i ==> v@[j] != sep,
            spec_split(v@, sep) == pieces@.map_values(|piece: Vec<u8>| piece@) + spec_split(
                v@.skip(start as int),
                sep,
            ),
        decreases v@.len() - i,
    {
        let b = v[i];
        if b == sep {
            proof {
                let rest = v@.skip(start as int);
                lemma_first_sep_characterize(rest, sep, i - start);
                assert(rest.take(i - start) =~= v@.subrange(start as int, i as int));
                assert(rest.skip(i - start + 1) =~= v@.skip(i + 1));
                assert(spec_split(rest, sep) == seq![current@] + spec_split(v@.skip(i + 1), sep));
            }
            let ghost pre_pieces = pieces@;
            pieces.push(current);
            proof {
                assert(pieces@.map_values(|piece: Vec<u8>| piece@) =~= pre_pieces.map_values(
                    |piece: Vec<u8>| piece@,
                ).push(pieces@.last()@));
                assert(pre_pieces.map_values(|piece: Vec<u8>| piece@).push(pieces@.last()@)
                    + spec_split(v@.skip(i + 1), sep) =~= pre_pieces.map_values(
                    |piece: Vec<u8>| piece@,
                ) + (seq![pieces@.last()@] + spec_split(v@.skip(i + 1), sep)));
            }
            current = Vec::new();
            start = i + 1;
            proof {
                assert(current@ =~= v@.subrange(start as int, i + 1));
            }
        } else {
            current.push(b);
            proof {
                assert(current@ =~= v@.subrange(start as int, i + 1));
            }
        }
        i = i + 1;
    }
    proof {
        let rest = v@.skip(start as int);
        lemma_first_sep_characterize(rest, sep, v@.len() - start);
        assert(rest.take(v@.len() - start) =~= rest);
        assert(current@ =~= rest);
        assert(spec_split(rest, sep) == seq![current@]);
    }
    let ghost pre_pieces = pieces@;
    pieces.push(current);
    proof {
        assert(pieces@.map_values(|piece: Vec<u8>| piece@) =~= pre_pieces.map_values(
            |piece: Vec<u8>| piece@,
        ).push(pieces@.last()@));
        assert(pre_pieces.map_values(|piece: Vec<u8>| piece@).push(pieces@.last()@)
            =~= pre_pieces.map_values(|piece: Vec<u8>| piece@) + seq![pieces@.last()@]);
    }
    pieces
}

} // verus!
