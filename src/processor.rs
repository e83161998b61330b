use vstd::prelude::*;

use crate::address::{
    authority_address, authority_seeds, derive_authority_address, same_key, seeds_view,
    signer_seed_list,
};
use crate::error::EchoError;
use crate::state::{header_of, AuthorizedBufferHeader, HEADER_LEN};
use vstd::bytes::{lemma_auto_spec_u64_to_from_le_bytes, spec_u64_to_le_bytes};

verus! {

/// `len` bytes: those of `data` as far as they reach, then zeros.
pub open spec fn padded_payload(len: nat, data: Seq<u8>) -> Seq<u8> {
    Seq::new(len, |i: int| if i < data.len() { data[i] } else { 0u8 })
}

/// The account after its payload region has received `data`: the header
/// kept, the payload rewritten in full.
pub open spec fn written_account(account: Seq<u8>, data: Seq<u8>) -> Seq<u8> {
    account.subrange(0, HEADER_LEN as int) + padded_payload(
        (account.len() - HEADER_LEN) as nat,
        data,
    )
}

/// Whether `authority` may write the account at `buffer_key` whose bytes are
/// `account`, and if not, why: the header must decode, and re-deriving from
/// the stored seed must give the stored bump and the account's own address.
pub open spec fn authorized_echo_result(
    program_id: Seq<u8>,
    buffer_key: Seq<u8>,
    authority: Seq<u8>,
    account: Seq<u8>,
) -> Result<(), EchoError> {
    if account.len() < HEADER_LEN {
        Err(EchoError::DecodeError)
    } else {
        let h = header_of(account);
        match authority_address(program_id, authority, h.buffer_seed) {
            None => Err(EchoError::NoViableBump),
            Some((address, bump)) => if bump != h.bump_seed {
                Err(EchoError::BumpMismatch)
            } else if address != buffer_key {
                Err(EchoError::AddressMismatch)
            } else {
                Ok(())
            },
        }
    }
}

/// The account's bytes after an authorized write of `data`: rewritten where
/// the write is allowed, unchanged where it is refused.
pub open spec fn account_after_echo(
    program_id: Seq<u8>,
    buffer_key: Seq<u8>,
    authority: Seq<u8>,
    account: Seq<u8>,
    data: Seq<u8>,
) -> Seq<u8> {
    if authorized_echo_result(program_id, buffer_key, authority, account) is Ok {
        written_account(account, data)
    } else {
        account
    }
}

/// Overwrites `buffer[start..]` with `data`, cut to length or padded with zeros.
fn fill_from(buffer: &mut [u8], start: usize, data: &[u8])
    requires
        start <= old(buffer)@.len(),
    ensures
        final(buffer)@ == old(buffer)@.subrange(0, start as int) + padded_payload(
            (old(buffer)@.len() - start) as nat,
            data@,
        ),
{
    let ghost orig = buffer@;
    let n = buffer.len();
    let mut i: usize = start;
    while i < n
        invariant
            start <= i <= n,
            n == buffer@.len(),
            n == orig.len(),
            forall|k: int| 0 <= k < start ==> buffer@[k] == orig[k],
            forall|k: int|
                start <= k < i ==> buffer@[k] == (if k - start < data@.len() {
                    data@[k - start]
                } else {
                    0u8
                }),
        decreases n - i,
    {
        let j = i - start;
        if j < data.len() {
            buffer[i] = data[j];
        } else {
            buffer[i] = 0;
        }
        i = i + 1;
    }
    assert(buffer@ =~= orig.subrange(0, start as int) + padded_payload(
        (orig.len() - start) as nat,
        data@,
    ));
}

/// Copies `data` into the whole of `buffer`, cut to its length or padded with zeros.
pub fn echo(buffer: &mut [u8], data: &[u8])
    ensures
        final(buffer)@ == padded_payload(old(buffer)@.len(), data@),
{
    let ghost orig = buffer@;
    fill_from(buffer, 0, data);
    assert(buffer@ =~= padded_payload(orig.len(), data@));
}

/// Writes `data` into the payload region of the account whose key is
/// `buffer_key` and whose bytes are `account_data`, on behalf of `authority`.
/// The write happens only where the stored header matches a fresh derivation
/// for `authority`; otherwise the account is left untouched.
pub fn authorized_echo(
    program_id: &[u8; 32],
    buffer_key: &[u8; 32],
    authority: &[u8; 32],
    account_data: &mut [u8],
    data: &[u8],
) -> (r: Result<(), EchoError>)
    ensures
        r == authorized_echo_result(program_id@, buffer_key@, authority@, old(account_data)@),
        r is Ok ==> final(account_data)@ == written_account(old(account_data)@, data@),
        r is Err ==> final(account_data)@ == old(account_data)@,
        final(account_data)@ == account_after_echo(
            program_id@,
            buffer_key@,
            authority@,
            old(account_data)@,
            data@,
        ),
{
    let header = match AuthorizedBufferHeader::decode(account_data) {
        Ok(h) => h,
        Err(e) => return Err(e),
    };
    let found = derive_authority_address(program_id, authority, header.buffer_seed);
    let (address, bump) = match found {
        Some(found) => found,
        None => return Err(EchoError::NoViableBump),
    };
    if bump != header.bump_seed {
        return Err(EchoError::BumpMismatch);
    }
    if !same_key(&address, buffer_key) {
        return Err(EchoError::AddressMismatch);
    }
    fill_from(account_data, HEADER_LEN, data);
    Ok(())
}

/// What creating an authorized buffer takes: its bump, its size, the header
/// to store in it, and the seeds with which the program signs for it.
pub struct InitializePlan {
    pub bump_seed: u8,
    pub account_size: usize,
    pub header: AuthorizedBufferHeader,
    pub signer_seeds: Vec<Vec<u8>>,
}

/// Checks that `buffer_key` is the address derived for `authority` and
/// `buffer_seed`, and works out how the account is to be created.
pub fn plan_initialize(
    program_id: &[u8; 32],
    buffer_key: &[u8; 32],
    authority: &[u8; 32],
    buffer_seed: u64,
    buffer_size: usize,
) -> (r: Result<InitializePlan, EchoError>)
    requires
        buffer_size + HEADER_LEN <= usize::MAX,
    ensures
        match authority_address(program_id@, authority@, buffer_seed) {
            None => r is Err && r->Err_0 == EchoError::NoViableBump,
            Some((address, bump)) => if address != buffer_key@ {
                r is Err && r->Err_0 == EchoError::AddressMismatch
            } else {
                &&& r is Ok
                &&& r->Ok_0.bump_seed == bump
                &&& r->Ok_0.account_size == HEADER_LEN + buffer_size
                &&& r->Ok_0.header == (AuthorizedBufferHeader { bump_seed: bump, buffer_seed })
                &&& seeds_view(r->Ok_0.signer_seeds@) == authority_seeds(
                    authority@,
                    buffer_seed,
                ).push(seq![bump])
            },
        },
{
    let (address, bump) = match derive_authority_address(program_id, authority, buffer_seed) {
        Some(found) => found,
        None => return Err(EchoError::NoViableBump),
    };
    if !same_key(&address, buffer_key) {
        return Err(EchoError::AddressMismatch);
    }
    let account_size = AuthorizedBufferHeader::required_account_size(buffer_size);
    let header = AuthorizedBufferHeader { bump_seed: bump, buffer_seed };
    let signer_seeds = signer_seed_list(authority, buffer_seed, bump);
    Ok(InitializePlan { bump_seed: bump, account_size, header, signer_seeds })
}

/// A payload of length `len` written with `data` holds the first
/// `min(len, data.len())` bytes of `data`, followed by `max(0, len - data.len())` zeros.
pub proof fn lemma_payload_truncates_or_pads(len: nat, data: Seq<u8>)
    ensures
        padded_payload(len, data) == data.subrange(
            0,
            if len <= data.len() {
                len as int
            } else {
                data.len() as int
            },
        ) + Seq::new(
            if len <= data.len() {
                0nat
            } else {
                (len - data.len()) as nat
            },
            |i: int| 0u8,
        ),
{
    let n: int = if len <= data.len() {
        len as int
    } else {
        data.len() as int
    };
    let zeros = Seq::new(
        if len <= data.len() {
            0nat
        } else {
            (len - data.len()) as nat
        },
        |i: int| 0u8,
    );
    assert(padded_payload(len, data) =~= data.subrange(0, n) + zeros);
}

/// An authorized write leaves the header as it was, so the same authority
/// may write the account again.
pub proof fn lemma_written_account_keeps_authorization(
    program_id: Seq<u8>,
    buffer_key: Seq<u8>,
    authority: Seq<u8>,
    account: Seq<u8>,
    data: Seq<u8>,
)
    requires
        authorized_echo_result(program_id, buffer_key, authority, account) is Ok,
    ensures
        written_account(account, data).len() == account.len(),
        written_account(account, data).subrange(0, HEADER_LEN as int) == account.subrange(
            0,
            HEADER_LEN as int,
        ),
        authorized_echo_result(program_id, buffer_key, authority, written_account(account, data))
            is Ok,
{
    let w = written_account(account, data);
    assert(w.subrange(0, HEADER_LEN as int) =~= account.subrange(0, HEADER_LEN as int));
    assert(w.subrange(1, HEADER_LEN as int) =~= account.subrange(1, HEADER_LEN as int));
    assert(header_of(w) == header_of(account));
}

/// Writing the same data twice leaves the account as writing it once does,
/// whether the write is allowed or refused.
pub proof fn lemma_echo_idempotent(
    program_id: Seq<u8>,
    buffer_key: Seq<u8>,
    authority: Seq<u8>,
    account: Seq<u8>,
    data: Seq<u8>,
)
    ensures
        account_after_echo(
            program_id,
            buffer_key,
            authority,
            account_after_echo(program_id, buffer_key, authority, account, data),
            data,
        ) == account_after_echo(program_id, buffer_key, authority, account, data),
{
    if authorized_echo_result(program_id, buffer_key, authority, account) is Ok {
        lemma_written_account_keeps_authorization(program_id, buffer_key, authority, account, data);
        let w = written_account(account, data);
        assert(written_account(w, data) =~= w);
    }
}

/// Changing the stored bump of an account that `authority` may write makes
/// the write fail with `BumpMismatch` (and so leaves the account untouched).
pub proof fn lemma_altered_bump_rejected(
    program_id: Seq<u8>,
    buffer_key: Seq<u8>,
    authority: Seq<u8>,
    account: Seq<u8>,
    bump: u8,
)
    requires
        authorized_echo_result(program_id, buffer_key, authority, account) is Ok,
        bump != account[0],
    ensures
        authorized_echo_result(program_id, buffer_key, authority, account.update(0, bump))
            == Err::<(), EchoError>(EchoError::BumpMismatch),
        account_after_echo(program_id, buffer_key, authority, account.update(0, bump), seq![])
            == account.update(0, bump),
{
    let altered = account.update(0, bump);
    assert(altered.subrange(1, HEADER_LEN as int) =~= account.subrange(1, HEADER_LEN as int));
    assert(header_of(altered).buffer_seed == header_of(account).buffer_seed);
}

/// Changing the stored seed of an account that `authority` may write makes
/// the write fail with `BumpMismatch` or `AddressMismatch` (and so leaves the
/// account untouched), provided the derivation for the new seed succeeds and
/// does not land on the same address.
pub proof fn lemma_altered_seed_rejected(
    program_id: Seq<u8>,
    buffer_key: Seq<u8>,
    authority: Seq<u8>,
    account: Seq<u8>,
    seed: u64,
    data: Seq<u8>,
)
    requires
        authorized_echo_result(program_id, buffer_key, authority, account) is Ok,
        seed != header_of(account).buffer_seed,
        authority_address(program_id, authority, seed) is Some,
        ({
            let (address, bump) = authority_address(program_id, authority, seed)->0;
            address != buffer_key
        }),
    ensures
        ({
            let altered = account.subrange(0, 1) + spec_u64_to_le_bytes(seed) + account.subrange(
                HEADER_LEN as int,
                account.len() as int,
            );
            &&& authorized_echo_result(program_id, buffer_key, authority, altered)
                == Err::<(), EchoError>(EchoError::BumpMismatch) || authorized_echo_result(
                program_id,
                buffer_key,
                authority,
                altered,
            ) == Err::<(), EchoError>(EchoError::AddressMismatch)
            &&& account_after_echo(program_id, buffer_key, authority, altered, data) == altered
        }),
{
    lemma_auto_spec_u64_to_from_le_bytes();
    let altered = account.subrange(0, 1) + spec_u64_to_le_bytes(seed) + account.subrange(
        HEADER_LEN as int,
        account.len() as int,
    );
    assert(altered.subrange(1, HEADER_LEN as int) =~= spec_u64_to_le_bytes(seed));
    assert(header_of(altered).buffer_seed == seed);
}

} // verus!
