//! Little-endian numbers in byte buffers.
use vstd::prelude::*;

verus! {

/// The two bytes of `value`, least significant first.
pub open spec fn le16(value: u16) -> Seq<u8> {
    seq![value as u8, (value >> 8) as u8]
}

/// The four bytes of `value`, least significant first.
pub open spec fn le32(value: u32) -> Seq<u8> {
    seq![value as u8, (value >> 8) as u8, (value >> 16) as u8, (value >> 24) as u8]
}

/// The eight bytes of `value`, least significant first.
pub open spec fn le64(value: u64) -> Seq<u8> {
    seq![
        value as u8,
        (value >> 8) as u8,
        (value >> 16) as u8,
        (value >> 24) as u8,
        (value >> 32) as u8,
        (value >> 40) as u8,
        (value >> 48) as u8,
        (value >> 56) as u8,
    ]
}

/// The number whose two little-endian bytes stand at `at`.
pub open spec fn u16_at(bytes: Seq<u8>, at: int) -> u16 {
    (bytes[at] as u16) | (bytes[at + 1] as u16) << 8
}

/// The number whose four little-endian bytes stand at `at`.
pub open spec fn u32_at(bytes: Seq<u8>, at: int) -> u32 {
    (bytes[at] as u32) | (bytes[at + 1] as u32) << 8 | (bytes[at + 2] as u32) << 16 | (bytes[at
        + 3] as u32) << 24
}

/// The number whose eight little-endian bytes stand at `at`.
pub open spec fn u64_at(bytes: Seq<u8>, at: int) -> u64 {
    (bytes[at] as u64) | (bytes[at + 1] as u64) << 8 | (bytes[at + 2] as u64) << 16 | (bytes[at
        + 3] as u64) << 24 | (bytes[at + 4] as u64) << 32 | (bytes[at + 5] as u64) << 40 | (bytes[at
        + 6] as u64) << 48 | (bytes[at + 7] as u64) << 56
}

/// Reading a 32-bit number back gives what was written.
pub proof fn lemma_u32_round_trip(value: u32)
    ensures
        u32_at(le32(value), 0) == value,
        le32(value).len() == 4,
{
    assert((value as u8 as u32) | ((value >> 8) as u8 as u32) << 8 | ((value >> 16) as u8 as u32)
        << 16 | ((value >> 24) as u8 as u32) << 24 == value) by (bit_vector);
}

/// Reading a 64-bit number back gives what was written.
pub proof fn lemma_u64_round_trip(value: u64)
    ensures
        u64_at(le64(value), 0) == value,
        le64(value).len() == 8,
{
    assert((value as u8 as u64) | ((value >> 8) as u8 as u64) << 8 | ((value >> 16) as u8 as u64)
        << 16 | ((value >> 24) as u8 as u64) << 24 | ((value >> 32) as u8 as u64) << 32 | ((value
        >> 40) as u8 as u64) << 40 | ((value >> 48) as u8 as u64) << 48 | ((value >> 56) as u8 as u64)
        << 56 == value) by (bit_vector);
}

/// Append the two bytes of `value`.
pub fn put_u16(out: &mut Vec<u8>, value: u16)
    ensures
        final(out)@ == old(out)@ + le16(value),
{
    out.push(#[verifier::truncate] (value as u8));
    out.push(#[verifier::truncate] ((value >> 8) as u8));
}

/// Append the four bytes of `value`.
pub fn put_u32(out: &mut Vec<u8>, value: u32)
    ensures
        final(out)@ == old(out)@ + le32(value),
{
    out.push(#[verifier::truncate] (value as u8));
    out.push(#[verifier::truncate] ((value >> 8) as u8));
    out.push(#[verifier::truncate] ((value >> 16) as u8));
    out.push(#[verifier::truncate] ((value >> 24) as u8));
}

/// Append the eight bytes of `value`.
pub fn put_u64(out: &mut Vec<u8>, value: u64)
    ensures
        final(out)@ == old(out)@ + le64(value),
{
    out.push(#[verifier::truncate] (value as u8));
    out.push(#[verifier::truncate] ((value >> 8) as u8));
    out.push(#[verifier::truncate] ((value >> 16) as u8));
    out.push(#[verifier::truncate] ((value >> 24) as u8));
    out.push(#[verifier::truncate] ((value >> 32) as u8));
    out.push(#[verifier::truncate] ((value >> 40) as u8));
    out.push(#[verifier::truncate] ((value >> 48) as u8));
    out.push(#[verifier::truncate] ((value >> 56) as u8));
}

/// The two bytes of `value`, most significant first.
pub open spec fn be16(value: u16) -> Seq<u8> {
    seq![(value / 0x100) as u8, (value % 0x100) as u8]
}

/// The four bytes of `value`, most significant first.
pub open spec fn be32(value: u32) -> Seq<u8> {
    seq![
        (value / 0x100_0000) as u8,
        ((value / 0x1_0000) % 0x100) as u8,
        ((value / 0x100) % 0x100) as u8,
        (value % 0x100) as u8,
    ]
}

/// The number whose four bytes, most significant first, stand at `at`.
pub open spec fn u32_be_at(bytes: Seq<u8>, at: int) -> u32 {
    (bytes[at] * 0x100_0000 + bytes[at + 1] * 0x1_0000 + bytes[at + 2] * 0x100 + bytes[at
        + 3]) as u32
}

/// Reading a number of thirty-two bits back gives what was written.
pub proof fn lemma_be32_round_trip(value: u32)
    ensures
        u32_be_at(be32(value), 0) == value,
        be32(value).len() == 4,
{
}

/// Read four bytes, most significant first.
pub fn get_u32_be(bytes: &[u8], at: usize) -> (value: u32)
    requires
        at + 4 <= bytes@.len(),
    ensures
        value == u32_be_at(bytes@, at as int),
{
    bytes[at] as u32 * 0x100_0000 + bytes[at + 1] as u32 * 0x1_0000 + bytes[at + 2] as u32 * 0x100
        + bytes[at + 3] as u32
}

/// Append every byte of `from`.
pub fn put_bytes(out: &mut Vec<u8>, from: &[u8])
    ensures
        final(out)@ == old(out)@ + from@,
{
    let ghost before = out@;
    let mut at: usize = 0;
    while at < from.len()
        invariant
            at <= from@.len(),
            out@ == before + from@.take(at as int),
        decreases from@.len() - at,
    {
        out.push(from[at]);
        at += 1;
    }
    assert(from@.take(at as int) =~= from@);
}

/// Append `count` zero bytes.
pub fn put_zeros(out: &mut Vec<u8>, count: usize)
    ensures
        final(out)@ == old(out)@ + Seq::new(count as nat, |i: int| 0u8),
{
    let ghost before = out@;
    let mut done: usize = 0;
    while done < count
        invariant
            done <= count,
            out@ == before + Seq::new(done as nat, |i: int| 0u8),
        decreases count - done,
    {
        out.push(0);
        done += 1;
    }
}

/// Read two little-endian bytes.
pub fn get_u16(bytes: &[u8], at: usize) -> (value: u16)
    requires
        at + 2 <= bytes@.len(),
    ensures
        value == u16_at(bytes@, at as int),
{
    (bytes[at] as u16) | (bytes[at + 1] as u16) << 8
}

/// Read four little-endian bytes.
pub fn get_u32(bytes: &[u8], at: usize) -> (value: u32)
    requires
        at + 4 <= bytes@.len(),
    ensures
        value == u32_at(bytes@, at as int),
{
    (bytes[at] as u32) | (bytes[at + 1] as u32) << 8 | (bytes[at + 2] as u32) << 16 | (bytes[at
        + 3] as u32) << 24
}

/// Read eight little-endian bytes.
pub fn get_u64(bytes: &[u8], at: usize) -> (value: u64)
    requires
        at + 8 <= bytes@.len(),
    ensures
        value == u64_at(bytes@, at as int),
{
    (bytes[at] as u64) | (bytes[at + 1] as u64) << 8 | (bytes[at + 2] as u64) << 16 | (bytes[at
        + 3] as u64) << 24 | (bytes[at + 4] as u64) << 32 | (bytes[at + 5] as u64) << 40 | (bytes[at
        + 6] as u64) << 48 | (bytes[at + 7] as u64) << 56
}

/// The bytes of several 64-bit numbers, one after the other.
pub open spec fn words_bytes(words: Seq<u64>) -> Seq<u8> {
    Seq::new(8 * words.len(), |i: int| le64(words[i / 8])[i % 8])
}

/// Each number can be read back from where it stands.
pub proof fn lemma_words_at(words: Seq<u64>, index: int)
    requires
        0 <= index < words.len(),
    ensures
        u64_at(words_bytes(words), 8 * index) == words[index],
{
    let bytes = words_bytes(words);
    assert forall|j: int| 0 <= j < 8 implies #[trigger] bytes[8 * index + j] == le64(
        words[index],
    )[j] by {
        assert((8 * index + j) / 8 == index && (8 * index + j) % 8 == j);
    }
    assert(bytes[8 * index + 0] == le64(words[index])[0]);
    assert(bytes[8 * index + 1] == le64(words[index])[1]);
    assert(bytes[8 * index + 2] == le64(words[index])[2]);
    assert(bytes[8 * index + 3] == le64(words[index])[3]);
    assert(bytes[8 * index + 4] == le64(words[index])[4]);
    assert(bytes[8 * index + 5] == le64(words[index])[5]);
    assert(bytes[8 * index + 6] == le64(words[index])[6]);
    assert(bytes[8 * index + 7] == le64(words[index])[7]);
    lemma_u64_round_trip(words[index]);
}

/// The bytes of `words`, one after the other.
pub fn words_to_bytes(words: &[u64]) -> (out: Vec<u8>)
    ensures
        out@ == words_bytes(words@),
{
    let mut out: Vec<u8> = Vec::new();
    let mut at: usize = 0;
    while at < words.len()
        invariant
            at <= words@.len(),
            out@ == words_bytes(words@.take(at as int)),
        decreases words@.len() - at,
    {
        let ghost before = out@;
        put_u64(&mut out, words[at]);
        assert(out@ =~= words_bytes(words@.take(at + 1))) by {
            let next = words@.take(at + 1);
            assert forall|i: int| 0 <= i < 8 * (at + 1) implies out@[i] == #[trigger] le64(
                next[i / 8],
            )[i % 8] by {
                if i < 8 * at {
                    assert(before[i] == le64(words@.take(at as int)[i / 8])[i % 8]);
                } else {
                    assert(i / 8 == at && i % 8 == i - 8 * at);
                }
            }
        }
        at += 1;
    }
    assert(words@.take(at as int) =~= words@);
    out
}

/// Whether two runs of bytes are the same.
pub fn same_bytes(left: &[u8], right: &[u8]) -> (same: bool)
    ensures
        same == (left@ == right@),
{
    if left.len() != right.len() {
        return false;
    }
    let mut at: usize = 0;
    while at < left.len()
        invariant
            at <= left@.len(),
            left@.len() == right@.len(),
            forall|i: int| 0 <= i < at ==> left@[i] == right@[i],
        decreases left@.len() - at,
    {
        if left[at] != right[at] {
            return false;
        }
        at += 1;
    }
    assert(left@ =~= right@);
    true
}

/// The bytes of `from` that stand in `start..end`.
pub fn copy_range(from: &[u8], start: usize, end: usize) -> (out: Vec<u8>)
    requires
        start <= end <= from@.len(),
    ensures
        out@ == from@.subrange(start as int, end as int),
{
    let mut out: Vec<u8> = Vec::new();
    let mut at: usize = start;
    while at < end
        invariant
            start <= at <= end <= from@.len(),
            out@ == from@.subrange(start as int, at as int),
        decreases end - at,
    {
        out.push(from[at]);
        at += 1;
        assert(out@ =~= from@.subrange(start as int, at as int));
    }
    out
}

/// A copy of `from`.
pub fn copy_bytes(from: &[u8]) -> (out: Vec<u8>)
    ensures
        out@ == from@,
{
    let out = copy_range(from, 0, from.len());
    assert(out@ =~= from@);
    out
}

/// Reading a 16-bit number back gives what was written.
pub proof fn lemma_u16_round_trip(value: u16)
    ensures
        u16_at(le16(value), 0) == value,
        le16(value).len() == 2,
{
    assert((value as u8 as u16) | ((value >> 8) as u8 as u16) << 8 == value) by (bit_vector);
}

/// A number that was written somewhere among other bytes is read back from there.
pub proof fn lemma_numbers_among_bytes(bytes: Seq<u8>, at: int)
    requires
        0 <= at,
    ensures
        forall|value: u16|
            at + 2 <= bytes.len() && bytes.subrange(at, at + 2) == #[trigger] le16(value)
                ==> u16_at(bytes, at) == value,
        forall|value: u32|
            at + 4 <= bytes.len() && bytes.subrange(at, at + 4) == #[trigger] le32(value)
                ==> u32_at(bytes, at) == value,
        forall|value: u64|
            at + 8 <= bytes.len() && bytes.subrange(at, at + 8) == #[trigger] le64(value)
                ==> u64_at(bytes, at) == value,
{
    assert forall|value: u16|
        at + 2 <= bytes.len() && bytes.subrange(at, at + 2) == #[trigger] le16(value) implies u16_at(
        bytes,
        at,
    ) == value by {
        lemma_u16_round_trip(value);
        let part = bytes.subrange(at, at + 2);
        assert(part[0] == bytes[at] && part[1] == bytes[at + 1]);
    }
    assert forall|value: u32|
        at + 4 <= bytes.len() && bytes.subrange(at, at + 4) == #[trigger] le32(value) implies u32_at(
        bytes,
        at,
    ) == value by {
        lemma_u32_round_trip(value);
        let part = bytes.subrange(at, at + 4);
        assert(part[0] == bytes[at] && part[1] == bytes[at + 1] && part[2] == bytes[at + 2]
            && part[3] == bytes[at + 3]);
    }
    assert forall|value: u64|
        at + 8 <= bytes.len() && bytes.subrange(at, at + 8) == #[trigger] le64(value) implies u64_at(
        bytes,
        at,
    ) == value by {
        lemma_u64_round_trip(value);
        let part = bytes.subrange(at, at + 8);
        assert(part[0] == bytes[at] && part[1] == bytes[at + 1] && part[2] == bytes[at + 2]
            && part[3] == bytes[at + 3] && part[4] == bytes[at + 4] && part[5] == bytes[at + 5]
            && part[6] == bytes[at + 6] && part[7] == bytes[at + 7]);
    }
}

/// The low byte of a number stands first, and each byte after it is worth 256
/// times the one before.
pub proof fn law_low_byte_first(bytes: Seq<u8>, at: int)
    ensures
        u16_at(bytes, at) == bytes[at] + 0x100 * bytes[at + 1],
        u32_at(bytes, at) == bytes[at] + 0x100 * bytes[at + 1] + 0x1_0000 * bytes[at + 2]
            + 0x100_0000 * bytes[at + 3],
        u64_at(bytes, at) == u32_at(bytes, at) + 0x1_0000_0000 * u32_at(bytes, at + 4),
{
    let (a, b, c, d) = (bytes[at], bytes[at + 1], bytes[at + 2], bytes[at + 3]);
    let (e, f, g, h) = (bytes[at + 4], bytes[at + 5], bytes[at + 6], bytes[at + 7]);
    assert((a as u16) | (b as u16) << 8 == a + 0x100 * b) by (bit_vector);
    assert((a as u32) | (b as u32) << 8 | (c as u32) << 16 | (d as u32) << 24 == a + 0x100 * b
        + 0x1_0000 * c + 0x100_0000 * d) by (bit_vector);
    assert((a as u64) | (b as u64) << 8 | (c as u64) << 16 | (d as u64) << 24 | (e as u64) << 32 | (
    f as u64) << 40 | (g as u64) << 48 | (h as u64) << 56 == ((a as u32) | (b as u32) << 8 | (
    c as u32) << 16 | (d as u32) << 24) + 0x1_0000_0000 * ((e as u32) | (f as u32) << 8 | (g as u32)
        << 16 | (h as u32) << 24)) by (bit_vector);
}

/// The high byte stands first in a number that is the other way round.
pub proof fn law_high_byte_first(value: u16, wide: u32)
    ensures
        be16(value).len() == 2,
        be16(value)[0] * 0x100 + be16(value)[1] == value,
        be32(wide).len() == 4,
        be32(wide)[0] * 0x100_0000 + be32(wide)[1] * 0x1_0000 + be32(wide)[2] * 0x100 + be32(
            wide,
        )[3] == wide,
{
}

} // verus!
