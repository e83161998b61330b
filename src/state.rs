use vstd::bytes::{
    lemma_auto_spec_u64_to_from_le_bytes, spec_u64_from_le_bytes, spec_u64_to_le_bytes,
    u64_from_le_bytes, u64_to_le_bytes,
};
use vstd::prelude::*;

use crate::error::EchoError;

verus! {

/// Length in bytes of the header at the start of every authorized buffer.
pub const HEADER_LEN: usize = 9;

/// The record kept at offset 0 of an authorized buffer account: the bump and
/// the seed from which the account's address was derived.
#[derive(Debug, Clone, Copy, PartialEq, Eq, Structural)]
pub struct AuthorizedBufferHeader {
    pub bump_seed: u8,
    pub buffer_seed: u64,
}

/// The nine bytes that stand for `h`: the bump, then the seed in little-endian order.
pub open spec fn header_bytes(h: AuthorizedBufferHeader) -> Seq<u8> {
    seq![h.bump_seed] + spec_u64_to_le_bytes(h.buffer_seed)
}

/// The header read from the first nine bytes of `b`.
pub open spec fn header_of(b: Seq<u8>) -> AuthorizedBufferHeader
    recommends
        b.len() >= HEADER_LEN,
{
    AuthorizedBufferHeader {
        bump_seed: b[0],
        buffer_seed: spec_u64_from_le_bytes(b.subrange(1, HEADER_LEN as int)),
    }
}

impl AuthorizedBufferHeader {
    /// Size of an account whose payload holds `buffer_size` bytes.
    pub fn required_account_size(buffer_size: usize) -> (r: usize)
        requires
            buffer_size + HEADER_LEN <= usize::MAX,
        ensures
            r == HEADER_LEN + buffer_size,
    {
        1 + 8 + buffer_size
    }

    /// The header as nine bytes.
    pub fn encode(&self) -> (r: Vec<u8>)
        ensures
            r@ == header_bytes(*self),
            r@.len() == HEADER_LEN,
    {
        proof {
            lemma_auto_spec_u64_to_from_le_bytes();
        }
        let mut r: Vec<u8> = Vec::new();
        r.push(self.bump_seed);
        let seed = u64_to_le_bytes(self.buffer_seed);
        r.extend_from_slice(seed.as_slice());
        r
    }

    /// Reads the header from the start of `data`; fails where `data` is
    /// shorter than a header.
    pub fn decode(data: &[u8]) -> (r: Result<AuthorizedBufferHeader, EchoError>)
        ensures
            data@.len() >= HEADER_LEN ==> r == Ok::<AuthorizedBufferHeader, EchoError>(
                header_of(data@),
            ),
            data@.len() < HEADER_LEN ==> r == Err::<AuthorizedBufferHeader, EchoError>(
                EchoError::DecodeError,
            ),
    {
        if data.len() < HEADER_LEN {
            return Err(EchoError::DecodeError);
        }
        let seed = u64_from_le_bytes(&data[1..9]);
        Ok(AuthorizedBufferHeader { bump_seed: data[0], buffer_seed: seed })
    }
}

impl AuthorizedBufferHeader {
    /// Writes the header over the first nine bytes of `data`, leaving the rest
    /// as it was; fails, changing nothing, where `data` is shorter than a header.
    pub fn write_to(&self, data: &mut [u8]) -> (r: Result<(), EchoError>)
        ensures
            old(data)@.len() >= HEADER_LEN ==> r == Ok::<(), EchoError>(()) && final(data)@
                == header_bytes(*self) + old(data)@.subrange(
                HEADER_LEN as int,
                old(data)@.len() as int,
            ),
            old(data)@.len() < HEADER_LEN ==> r == Err::<(), EchoError>(EchoError::AccountTooSmall)
                && final(data)@ == old(data)@,
    {
        if data.len() < HEADER_LEN {
            return Err(EchoError::AccountTooSmall);
        }
        let bytes = self.encode();
        let ghost orig = data@;
        let mut i: usize = 0;
        while i < HEADER_LEN
            invariant
                i <= HEADER_LEN,
                bytes@ == header_bytes(*self),
                bytes@.len() == HEADER_LEN,
                data@.len() == orig.len(),
                orig.len() >= HEADER_LEN,
                forall|k: int| 0 <= k < i ==> data@[k] == bytes@[k],
                forall|k: int| i <= k < orig.len() ==> data@[k] == orig[k],
            decreases HEADER_LEN - i,
        {
            data[i] = bytes[i];
            i = i + 1;
        }
        assert(data@ =~= header_bytes(*self) + orig.subrange(HEADER_LEN as int, orig.len() as int));
        Ok(())
    }
}

/// Decoding the encoding of a header gives the header back.
pub proof fn lemma_header_round_trip(h: AuthorizedBufferHeader)
    ensures
        header_bytes(h).len() == HEADER_LEN,
        header_of(header_bytes(h)) == h,
{
    lemma_auto_spec_u64_to_from_le_bytes();
    let b = header_bytes(h);
    assert(b.subrange(1, HEADER_LEN as int) =~= spec_u64_to_le_bytes(h.buffer_seed));
}

} // verus!
