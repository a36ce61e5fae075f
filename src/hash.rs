//! The content fingerprint of a photo file: 64-bit FNV-1a over its bytes,
//! written as 16 lower-case hex digits. It names the file's thumbnails in
//! the cache.
use vstd::prelude::*;
use vstd::wrapping::u64_specs;
use crate::text::push_char;

verus! {

pub const FNV_OFFSET: u64 = 0xcbf2_9ce4_8422_2325;

pub const FNV_PRIME: u64 = 0x0000_0100_0000_01b3;

/// FNV-1a of `data`: for each byte, xor it in, then multiply by the prime
/// modulo 2^64.
pub open spec fn fnv1a(data: Seq<u8>) -> u64
    decreases data.len(),
{
    if data.len() == 0 {
        FNV_OFFSET
    } else {
        u64_specs::wrapping_mul(fnv1a(data.drop_last()) ^ (data.last() as u64), FNV_PRIME)
    }
}

pub open spec fn hex_digits() -> Seq<char> {
    seq!['0', '1', '2', '3', '4', '5', '6', '7', '8', '9', 'a', 'b', 'c', 'd', 'e', 'f']
}

/// The 16 hex digits of `h`, most significant first.
pub open spec fn hex16(h: u64) -> Seq<char> {
    Seq::new(16, |i: int| hex_digits()[((h >> ((60 - 4 * i) as u64)) & 15) as int])
}

pub fn fnv1a_64(data: &[u8]) -> (r: u64)
    ensures
        r == fnv1a(data@),
{
    let mut h: u64 = FNV_OFFSET;
    let mut i: usize = 0;
    assert(data@.subrange(0, 0) =~= Seq::<u8>::empty());
    while i < data.len()
        invariant
            i <= data@.len(),
            h == fnv1a(data@.subrange(0, i as int)),
        decreases data@.len() - i,
    {
        assert(data@.subrange(0, i + 1).drop_last() =~= data@.subrange(0, i as int));
        h = (h ^ (data[i] as u64)).wrapping_mul(FNV_PRIME);
        i = i + 1;
    }
    assert(data@.subrange(0, data@.len() as int) =~= data@);
    h
}

/// The fingerprint of the file content `data`.
pub fn content_hash(data: &Vec<u8>) -> (r: String)
    ensures
        r@ == hex16(fnv1a(data@)),
{
    let h = fnv1a_64(data.as_slice());
    let digits = vec!['0', '1', '2', '3', '4', '5', '6', '7', '8', '9', 'a', 'b', 'c', 'd', 'e', 'f'];
    assert(digits@ =~= hex_digits());
    let mut r = String::new();
    let mut i: u64 = 0;
    while i < 16
        invariant
            i <= 16,
            digits@ == hex_digits(),
            r@.len() == i,
            forall|k: int| 0 <= k < i ==> r@[k] == #[trigger] hex16(h)[k],
        decreases 16 - i,
    {
        let shift: u64 = 60 - 4 * i;
        let d = (h >> shift) & 15;
        assert((h >> shift) & 15 < 16) by (bit_vector);
        assert(shift == ((60 - 4 * (i as int)) as u64));
        push_char(&mut r, digits[d as usize]);
        i = i + 1;
    }
    assert(r@ =~= hex16(h));
    r
}

} // verus!
