//! Length-prefixed big-endian field encoding used by the signed group
//! manifests and tombstones.

use vstd::prelude::*;
use vstd::string::*;
use vstd::utf8::encode_utf8;

verus! {

/// Big-endian bytes of a `u16`.
pub open spec fn be_u16(v: u16) -> Seq<u8> {
    seq![(v / 0x100) as u8, (v % 0x100) as u8]
}

/// Big-endian bytes of a `u32`.
pub open spec fn be_u32(v: u32) -> Seq<u8> {
    seq![
        (v / 0x100_0000) as u8,
        ((v / 0x1_0000) % 0x100) as u8,
        ((v / 0x100) % 0x100) as u8,
        (v % 0x100) as u8,
    ]
}

/// Big-endian bytes of a `u64`.
pub open spec fn be_u64(v: u64) -> Seq<u8> {
    seq![
        (v / 0x100_0000_0000_0000) as u8,
        ((v / 0x1_0000_0000_0000) % 0x100) as u8,
        ((v / 0x100_0000_0000) % 0x100) as u8,
        ((v / 0x1_0000_0000) % 0x100) as u8,
        ((v / 0x100_0000) % 0x100) as u8,
        ((v / 0x1_0000) % 0x100) as u8,
        ((v / 0x100) % 0x100) as u8,
        (v % 0x100) as u8,
    ]
}

/// A byte field prefixed by its length as a big-endian `u32`.
#[verifier::opaque]
pub open spec fn length_prefixed(value: Seq<u8>) -> Seq<u8>
    recommends
        value.len() <= u32::MAX,
{
    be_u32(value.len() as u32) + value
}

/// Appends `value` to `output`, element by element.
pub fn append_bytes(output: &mut Vec<u8>, value: &[u8])
    ensures
        final(output)@ == old(output)@ + value@,
{
    let mut index: usize = 0;
    while index < value.len()
        invariant
            index <= value@.len(),
            output@ == old(output)@ + value@.subrange(0, index as int),
        decreases value@.len() - index,
    {
        output.push(value[index]);
        index = index + 1;
        proof {
            assert(value@.subrange(0, index as int) =~= value@.subrange(0, index - 1 as int).push(
                value@[index - 1],
            ));
        }
    }
    proof {
        assert(value@.subrange(0, value@.len() as int) =~= value@);
    }
}

/// Appends the big-endian bytes of a `u16`.
pub fn put_u16(output: &mut Vec<u8>, value: u16)
    ensures
        final(output)@ == old(output)@ + be_u16(value),
{
    output.push((value / 0x100) as u8);
    output.push((value % 0x100) as u8);
    proof {
        assert(final(output)@ =~= old(output)@ + be_u16(value));
    }
}

/// Appends the big-endian bytes of a `u64`.
pub fn put_u64(output: &mut Vec<u8>, value: u64)
    ensures
        final(output)@ == old(output)@ + be_u64(value),
{
    output.push((value / 0x100_0000_0000_0000) as u8);
    output.push(((value / 0x1_0000_0000_0000) % 0x100) as u8);
    output.push(((value / 0x100_0000_0000) % 0x100) as u8);
    output.push(((value / 0x1_0000_0000) % 0x100) as u8);
    output.push(((value / 0x100_0000) % 0x100) as u8);
    output.push(((value / 0x1_0000) % 0x100) as u8);
    output.push(((value / 0x100) % 0x100) as u8);
    output.push((value % 0x100) as u8);
    proof {
        assert(final(output)@ =~= old(output)@ + be_u64(value));
    }
}

/// Appends the big-endian bytes of a `u32`.
pub fn put_u32_be(output: &mut Vec<u8>, value: u32)
    ensures
        final(output)@ == old(output)@ + be_u32(value),
{
    output.push((value / 0x100_0000) as u8);
    output.push(((value / 0x1_0000) % 0x100) as u8);
    output.push(((value / 0x100) % 0x100) as u8);
    output.push((value % 0x100) as u8);
    proof {
        assert(final(output)@ =~= old(output)@ + be_u32(value));
    }
}

/// Appends a length as a big-endian `u32`; a length that does not fit in
/// a `u32` is refused and leaves `output` unchanged.
pub fn put_u32(output: &mut Vec<u8>, value: usize) -> (result: Result<(), String>)
    ensures
        result is Ok <==> value <= u32::MAX,
        result is Ok ==> final(output)@ == old(output)@ + be_u32(value as u32),
        result is Err ==> final(output)@ == old(output)@,
{
    if value > 0xffff_ffffusize {
        return Err(String::from_str("同步组字段过长"));
    }
    let length = value as u32;
    output.push((length / 0x100_0000) as u8);
    output.push(((length / 0x1_0000) % 0x100) as u8);
    output.push(((length / 0x100) % 0x100) as u8);
    output.push((length % 0x100) as u8);
    proof {
        assert(final(output)@ =~= old(output)@ + be_u32(length));
    }
    Ok(())
}

/// Appends a byte field prefixed by its big-endian `u32` length.
pub fn put_bytes(output: &mut Vec<u8>, value: &[u8]) -> (result: Result<(), String>)
    ensures
        result is Ok <==> value@.len() <= u32::MAX,
        result is Ok ==> final(output)@ == old(output)@ + length_prefixed(value@),
        result is Err ==> final(output)@ == old(output)@,
{
    put_u32(output, value.len())?;
    append_bytes(output, value);
    proof {
        reveal(length_prefixed);
        assert(final(output)@ =~= old(output)@ + length_prefixed(value@));
    }
    Ok(())
}

/// Appends the UTF-8 bytes of a string as a length-prefixed field.
pub fn put_string(output: &mut Vec<u8>, value: &str) -> (result: Result<(), String>)
    ensures
        result is Ok <==> encode_utf8(value@).len() <= u32::MAX,
        result is Ok ==> final(output)@ == old(output)@ + length_prefixed(encode_utf8(value@)),
        result is Err ==> final(output)@ == old(output)@,
{
    put_bytes(output, value.as_bytes())
}

/// Copies 32 bytes into an array.
pub fn array32(bytes: &[u8]) -> (array: [u8; 32])
    requires
        bytes@.len() == 32,
    ensures
        array@ == bytes@,
{
    let mut array = [0u8; 32];
    let mut i: usize = 0;
    while i < 32
        invariant
            i <= 32,
            bytes@.len() == 32,
            array@.len() == 32,
            forall|j: int| 0 <= j < i ==> array@[j] == bytes@[j],
        decreases 32 - i,
    {
        array[i] = bytes[i];
        i = i + 1;
    }
    assert(array@ =~= bytes@);
    array
}

pub proof fn lemma_be_u16_injective(x: u16, y: u16)
    requires
        be_u16(x) == be_u16(y),
    ensures
        x == y,
{
    assert(be_u16(x)[0] == be_u16(y)[0]);
    assert(be_u16(x)[1] == be_u16(y)[1]);
    assert(x / 0x100 < 0x100 && y / 0x100 < 0x100);
    assert(x / 0x100u16 == y / 0x100u16);
    assert(x % 0x100u16 == y % 0x100u16);
    assert(x == y) by (bit_vector)
        requires
            x / 0x100u16 == y / 0x100u16,
            x % 0x100u16 == y % 0x100u16,
    ;
}

pub proof fn lemma_be_u32_injective(x: u32, y: u32)
    requires
        be_u32(x) == be_u32(y),
    ensures
        x == y,
{
    assert(be_u32(x)[0] == be_u32(y)[0]);
    assert(be_u32(x)[1] == be_u32(y)[1]);
    assert(be_u32(x)[2] == be_u32(y)[2]);
    assert(be_u32(x)[3] == be_u32(y)[3]);
    assert(x / 0x100_0000 < 0x100 && y / 0x100_0000 < 0x100);
    assert(x == y) by (bit_vector)
        requires
            x / 0x100_0000u32 == y / 0x100_0000u32,
            (x / 0x1_0000u32) % 0x100u32 == (y / 0x1_0000u32) % 0x100u32,
            (x / 0x100u32) % 0x100u32 == (y / 0x100u32) % 0x100u32,
            x % 0x100u32 == y % 0x100u32,
    ;
}

pub proof fn lemma_be_u64_injective(x: u64, y: u64)
    requires
        be_u64(x) == be_u64(y),
    ensures
        x == y,
{
    assert(be_u64(x)[0] == be_u64(y)[0]);
    assert(be_u64(x)[1] == be_u64(y)[1]);
    assert(be_u64(x)[2] == be_u64(y)[2]);
    assert(be_u64(x)[3] == be_u64(y)[3]);
    assert(be_u64(x)[4] == be_u64(y)[4]);
    assert(be_u64(x)[5] == be_u64(y)[5]);
    assert(be_u64(x)[6] == be_u64(y)[6]);
    assert(be_u64(x)[7] == be_u64(y)[7]);
    assert(x / 0x100_0000_0000_0000 < 0x100 && y / 0x100_0000_0000_0000 < 0x100);
    assert(x == y) by (bit_vector)
        requires
            x / 0x100_0000_0000_0000u64 == y / 0x100_0000_0000_0000u64,
            (x / 0x1_0000_0000_0000u64) % 0x100u64 == (y / 0x1_0000_0000_0000u64) % 0x100u64,
            (x / 0x100_0000_0000u64) % 0x100u64 == (y / 0x100_0000_0000u64) % 0x100u64,
            (x / 0x1_0000_0000u64) % 0x100u64 == (y / 0x1_0000_0000u64) % 0x100u64,
            (x / 0x100_0000u64) % 0x100u64 == (y / 0x100_0000u64) % 0x100u64,
            (x / 0x1_0000u64) % 0x100u64 == (y / 0x1_0000u64) % 0x100u64,
            (x / 0x100u64) % 0x100u64 == (y / 0x100u64) % 0x100u64,
            x % 0x100u64 == y % 0x100u64,
    ;
}

/// Splitting a fixed-length prefix: equal prefixes of equal length and equal rests.
pub proof fn lemma_split_fixed(a: Seq<u8>, b: Seq<u8>, r1: Seq<u8>, r2: Seq<u8>)
    requires
        a.len() == b.len(),
        a + r1 == b + r2,
    ensures
        a == b,
        r1 == r2,
{
    assert(a =~= (a + r1).subrange(0, a.len() as int));
    assert(b =~= (b + r2).subrange(0, b.len() as int));
    assert(r1 =~= (a + r1).subrange(a.len() as int, (a + r1).len() as int));
    assert(r2 =~= (b + r2).subrange(b.len() as int, (b + r2).len() as int));
}

/// A length-prefixed field is read back unambiguously from the front of a byte string.
pub proof fn lemma_length_prefixed_split(a: Seq<u8>, b: Seq<u8>, r1: Seq<u8>, r2: Seq<u8>)
    requires
        a.len() <= u32::MAX,
        b.len() <= u32::MAX,
        length_prefixed(a) + r1 == length_prefixed(b) + r2,
    ensures
        a == b,
        r1 == r2,
{
    reveal(length_prefixed);
    let la = be_u32(a.len() as u32);
    let lb = be_u32(b.len() as u32);
    assert(length_prefixed(a) + r1 =~= la + (a + r1));
    assert(length_prefixed(b) + r2 =~= lb + (b + r2));
    lemma_split_fixed(la, lb, a + r1, b + r2);
    lemma_be_u32_injective(a.len() as u32, b.len() as u32);
    lemma_split_fixed(a, b, r1, r2);
}

} // verus!
