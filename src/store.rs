use vstd::prelude::*;

verus! {

/// Bytes in a stored encounter total.
pub const TOTAL_BYTES: usize = 8;

/// Why a stored encounter total could not be read back.
#[derive(Clone, Copy, Debug, PartialEq, Eq, Structural)]
pub enum DecodeError {
    /// The stored value does not hold exactly eight bytes.
    WrongLength { found: usize },
}

/// Byte `k` of `n`, least significant first.
pub open spec fn byte_of(n: u64, k: u64) -> u8 {
    ((n >> (8 * k)) & 0xff) as u8
}

/// The eight bytes of `n`, least significant first.
pub open spec fn le_bytes(n: u64) -> Seq<u8> {
    seq![
        byte_of(n, 0),
        byte_of(n, 1),
        byte_of(n, 2),
        byte_of(n, 3),
        byte_of(n, 4),
        byte_of(n, 5),
        byte_of(n, 6),
        byte_of(n, 7),
    ]
}

/// The number whose bytes, least significant first, are the eight of `b`.
pub open spec fn le_value(b: Seq<u8>) -> u64 {
    (b[0] as u64) | ((b[1] as u64) << 8) | ((b[2] as u64) << 16) | ((b[3] as u64) << 24) | ((
    b[4] as u64) << 32) | ((b[5] as u64) << 40) | ((b[6] as u64) << 48) | ((b[7] as u64) << 56)
}

/// The stored form of an encounter total: eight bytes, least significant first.
pub fn encode_total(n: u64) -> (r: Vec<u8>)
    ensures
        r@ == le_bytes(n),
{
    let mut r: Vec<u8> = Vec::new();
    let mut k: u64 = 0;
    while k < 8
        invariant
            k <= 8,
            r@.len() == k,
            forall|j: int| 0 <= j < k ==> #[trigger] r@[j] == byte_of(n, j as u64),
        decreases 8 - k,
    {
        r.push(((n >> (8 * k)) & 0xff) as u8);
        k = k + 1;
    }
    assert(r@ =~= le_bytes(n));
    r
}

/// Reads a stored encounter total back; anything but exactly eight bytes is
/// an error rather than a zero.
pub fn decode_total(b: &Vec<u8>) -> (r: Result<u64, DecodeError>)
    ensures
        b@.len() == TOTAL_BYTES ==> r == Ok::<u64, DecodeError>(le_value(b@)),
        b@.len() != TOTAL_BYTES ==> r == Err::<u64, DecodeError>(
            DecodeError::WrongLength { found: b@.len() as usize },
        ),
{
    if b.len() != TOTAL_BYTES {
        return Err(DecodeError::WrongLength { found: b.len() });
    }
    let v: u64 = (b[0] as u64) | ((b[1] as u64) << 8) | ((b[2] as u64) << 16) | ((b[3] as u64)
        << 24) | ((b[4] as u64) << 32) | ((b[5] as u64) << 40) | ((b[6] as u64) << 48) | ((
    b[7] as u64) << 56);
    Ok(v)
}

/// A total that is stored and read back is the total that was stored.
pub proof fn lemma_round_trip(n: u64)
    ensures
        le_bytes(n).len() == TOTAL_BYTES,
        le_value(le_bytes(n)) == n,
{
    let b = le_bytes(n);
    assert(b[0] == byte_of(n, 0) && b[1] == byte_of(n, 1) && b[2] == byte_of(n, 2) && b[3]
        == byte_of(n, 3) && b[4] == byte_of(n, 4) && b[5] == byte_of(n, 5) && b[6] == byte_of(n, 6)
        && b[7] == byte_of(n, 7));
    assert((((n >> 0u64) & 0xff) as u8 as u64) | ((((n >> 8u64) & 0xff) as u8 as u64) << 8) | ((((
    n >> 16u64) & 0xff) as u8 as u64) << 16) | ((((n >> 24u64) & 0xff) as u8 as u64) << 24) | ((((n
        >> 32u64) & 0xff) as u8 as u64) << 32) | ((((n >> 40u64) & 0xff) as u8 as u64) << 40) | ((((n
        >> 48u64) & 0xff) as u8 as u64) << 48) | ((((n >> 56u64) & 0xff) as u8 as u64) << 56) == n)
        by (bit_vector);
}

} // verus!
