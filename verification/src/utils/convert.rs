//! Fixed-width binary codec between a 32-bit signed identifier and its
//! 4-byte little-endian image, the value format of the ordered-kv backend.
use vstd::prelude::*;

verus! {

/// The little-endian byte image of a 32-bit unsigned value.
pub open spec fn u32_le_bytes(x: u32) -> Seq<u8> {
    seq![
        (x & 0xff) as u8,
        ((x >> 8) & 0xff) as u8,
        ((x >> 16) & 0xff) as u8,
        ((x >> 24) & 0xff) as u8,
    ]
}

/// The 32-bit unsigned value read back from a 4-byte little-endian image.
pub open spec fn u32_from_le_bytes(b: Seq<u8>) -> u32
    recommends
        b.len() == 4,
{
    (b[0] as u32) | ((b[1] as u32) << 8) | ((b[2] as u32) << 16) | ((b[3] as u32) << 24)
}

/// The 4-byte little-endian encoding of a message identifier.
pub open spec fn le_bytes_of(v: i32) -> Seq<u8> {
    u32_le_bytes(v as u32)
}

/// The message identifier read back from its 4-byte little-endian encoding.
pub open spec fn le_i32_of(b: Seq<u8>) -> i32
    recommends
        b.len() == 4,
{
    u32_from_le_bytes(b) as i32
}

/// A value with a fixed-width byte encoding.
pub trait IntoVecU8: Sized {
    /// The byte image that `into_vec_u8` produces.
    spec fn spec_into_vec_u8(&self) -> Seq<u8>;

    fn into_vec_u8(self) -> (r: Vec<u8>)
        ensures
            r@ == self.spec_into_vec_u8(),
    ;
}

/// A value readable back from its fixed-width byte encoding.
pub trait FromVecU8: Sized {
    /// The value that `from_vec_u8` reads from a byte image.
    spec fn spec_from_vec_u8(b: Seq<u8>) -> Self;

    fn from_vec_u8(v: &[u8]) -> (r: Self)
        requires
            v@.len() == 4,
        ensures
            r == Self::spec_from_vec_u8(v@),
    ;
}

impl IntoVecU8 for i32 {
    open spec fn spec_into_vec_u8(&self) -> Seq<u8> {
        le_bytes_of(*self)
    }

    fn into_vec_u8(self) -> (r: Vec<u8>) {
        let x = #[verifier::truncate] (self as u32);
        let mut r: Vec<u8> = Vec::new();
        r.push(#[verifier::truncate] ((x & 0xff) as u8));
        r.push(#[verifier::truncate] (((x >> 8) & 0xff) as u8));
        r.push(#[verifier::truncate] (((x >> 16) & 0xff) as u8));
        r.push(#[verifier::truncate] (((x >> 24) & 0xff) as u8));
        proof {
            assert(r@ =~= le_bytes_of(self));
        }
        r
    }
}

impl FromVecU8 for i32 {
    open spec fn spec_from_vec_u8(b: Seq<u8>) -> i32 {
        le_i32_of(b)
    }

    fn from_vec_u8(v: &[u8]) -> (r: i32) {
        let x: u32 = (v[0] as u32) | ((v[1] as u32) << 8) | ((v[2] as u32) << 16) | ((v[3]
            as u32) << 24);
        #[verifier::truncate] (x as i32)
    }
}

/// Law: decoding an encoded identifier gives the identifier back,
/// for every 32-bit signed value.
pub proof fn lemma_codec_round_trip(v: i32)
    ensures
        le_i32_of(le_bytes_of(v)) == v,
{
    let x = v as u32;
    assert(((x & 0xff) as u8 as u32) | (((x >> 8) & 0xff) as u8 as u32) << 8 | (((x >> 16)
        & 0xff) as u8 as u32) << 16 | (((x >> 24) & 0xff) as u8 as u32) << 24 == x)
        by (bit_vector);
    assert((v as u32) as i32 == v) by (bit_vector);
}

/// Law: encoding the identifier read from a 4-byte image gives the
/// image back, so the stored encoding of an identifier is unique.
pub proof fn lemma_codec_image_round_trip(b: Seq<u8>)
    requires
        b.len() == 4,
    ensures
        le_bytes_of(le_i32_of(b)) == b,
{
    let b0 = b[0];
    let b1 = b[1];
    let b2 = b[2];
    let b3 = b[3];
    let x = (b0 as u32) | ((b1 as u32) << 8) | ((b2 as u32) << 16) | ((b3 as u32) << 24);
    assert((x as i32) as u32 == x) by (bit_vector);
    assert((x & 0xff) as u8 == b0 && ((x >> 8) & 0xff) as u8 == b1 && ((x >> 16) & 0xff)
        as u8 == b2 && ((x >> 24) & 0xff) as u8 == b3) by (bit_vector)
        requires
            x == (b0 as u32) | ((b1 as u32) << 8) | ((b2 as u32) << 16) | ((b3 as u32)
                << 24),
    ;
    assert(le_bytes_of(le_i32_of(b)) =~= b);
}

} // verus!
