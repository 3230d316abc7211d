//! Fixed-width little-endian fields, read from raw record bytes.
use vstd::bytes::*;
use vstd::prelude::*;

verus! {

/// The `u32` held little-endian in `data[offset..offset + 4]`.
pub open spec fn le_u32_at(data: Seq<u8>, offset: int) -> u32 {
    spec_u32_from_le_bytes(data.subrange(offset, offset + 4))
}

/// The `u64` held little-endian in `data[offset..offset + 8]`.
pub open spec fn le_u64_at(data: Seq<u8>, offset: int) -> u64 {
    spec_u64_from_le_bytes(data.subrange(offset, offset + 8))
}

/// The `u128` held little-endian in `data[offset..offset + 16]`.
pub open spec fn le_u128_at(data: Seq<u8>, offset: int) -> u128 {
    spec_u128_from_le_bytes(data.subrange(offset, offset + 16))
}

/// Reads a little-endian `u32` from `data[offset..offset + 4]`.
pub fn read_u32_le(data: &Vec<u8>, offset: usize) -> (r: u32)
    requires
        offset + 4 <= data@.len(),
    ensures
        r == le_u32_at(data@, offset as int),
{
    let len = data.len();
    assert(offset + 4 <= len);
    u32_from_le_bytes(vstd::slice::slice_subrange(data.as_slice(), offset, offset + 4))
}

/// Reads a little-endian `u64` from `data[offset..offset + 8]`.
pub fn read_u64_le(data: &Vec<u8>, offset: usize) -> (r: u64)
    requires
        offset + 8 <= data@.len(),
    ensures
        r == le_u64_at(data@, offset as int),
{
    let len = data.len();
    assert(offset + 8 <= len);
    u64_from_le_bytes(vstd::slice::slice_subrange(data.as_slice(), offset, offset + 8))
}

/// Reads a little-endian `u128` from `data[offset..offset + 16]`.
pub fn read_u128_le(data: &Vec<u8>, offset: usize) -> (r: u128)
    requires
        offset + 16 <= data@.len(),
    ensures
        r == le_u128_at(data@, offset as int),
{
    let len = data.len();
    assert(offset + 16 <= len);
    u128_from_le_bytes(vstd::slice::slice_subrange(data.as_slice(), offset, offset + 16))
}

/// Decodes a buffer that must be exactly eight bytes long.
pub fn decode_u64(data: &Vec<u8>) -> (r: Option<u64>)
    ensures
        r == (if data@.len() == 8 {
            Some(le_u64_at(data@, 0))
        } else {
            None::<u64>
        }),
{
    if data.len() == 8 {
        Some(read_u64_le(data, 0))
    } else {
        None
    }
}

/// Decodes a buffer that must be exactly sixteen bytes long.
pub fn decode_u128(data: &Vec<u8>) -> (r: Option<u128>)
    ensures
        r == (if data@.len() == 16 {
            Some(le_u128_at(data@, 0))
        } else {
            None::<u128>
        }),
{
    if data.len() == 16 {
        Some(read_u128_le(data, 0))
    } else {
        None
    }
}

/// Encodes a `u64` as eight little-endian bytes.
pub fn encode_u64(x: u64) -> (r: Vec<u8>)
    ensures
        r@ == spec_u64_to_le_bytes(x),
        r@.len() == 8,
{
    u64_to_le_bytes(x)
}

/// Encodes a `u128` as sixteen little-endian bytes.
pub fn encode_u128(x: u128) -> (r: Vec<u8>)
    ensures
        r@ == spec_u128_to_le_bytes(x),
        r@.len() == 16,
{
    u128_to_le_bytes(x)
}

/// Decoding the eight bytes that encode a `u64` gives the value back.
pub proof fn lemma_decode_encode_u64(x: u64)
    ensures
        spec_u64_to_le_bytes(x).len() == 8,
        le_u64_at(spec_u64_to_le_bytes(x), 0) == x,
{
    lemma_auto_spec_u64_to_from_le_bytes();
    assert(spec_u64_to_le_bytes(x).subrange(0, 8) =~= spec_u64_to_le_bytes(x));
}

/// Decoding the sixteen bytes that encode a `u128` gives the value back.
pub proof fn lemma_decode_encode_u128(x: u128)
    ensures
        spec_u128_to_le_bytes(x).len() == 16,
        le_u128_at(spec_u128_to_le_bytes(x), 0) == x,
{
    lemma_auto_spec_u128_to_from_le_bytes();
    assert(spec_u128_to_le_bytes(x).subrange(0, 16) =~= spec_u128_to_le_bytes(x));
}

} // verus!

verus! {

/// The byte contents of each record.
pub open spec fn views(records: Seq<Vec<u8>>) -> Seq<Seq<u8>> {
    records.map_values(|r: Vec<u8>| r@)
}

} // verus!

verus! {

/// Whether two byte buffers hold the same bytes.
pub fn bytes_equal(a: &Vec<u8>, b: &Vec<u8>) -> (r: bool)
    ensures
        r == (a@ == b@),
{
    if a.len() != b.len() {
        return false;
    }
    let mut i: usize = 0;
    while i < a.len()
        invariant
            a@.len() == b@.len(),
            i <= a@.len(),
            forall|k: int| 0 <= k < i ==> a@[k] == b@[k],
        decreases a@.len() - i,
    {
        if a[i] != b[i] {
            return false;
        }
        i = i + 1;
    }
    assert(a@ =~= b@);
    true
}

} // verus!
