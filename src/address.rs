use solana_program::pubkey::Pubkey;
use vstd::bytes::{spec_u64_to_le_bytes, u64_to_le_bytes};
use vstd::prelude::*;
use vstd::slice::slice_to_vec;

verus! {

/// The namespace tag that starts the seeds of every authorized buffer: "authority".
pub open spec fn authority_tag() -> Seq<u8> {
    seq![97u8, 117u8, 116u8, 104u8, 111u8, 114u8, 105u8, 116u8, 121u8]
}

/// The address and bump that the program-address search finds for `seeds`
/// under `program_id`, or `None` where no bump gives an address off the curve.
pub uninterp spec fn program_address(
    seeds: Seq<Seq<u8>>,
    program_id: Seq<u8>,
) -> Option<(Seq<u8>, u8)>;

/// The byte sequences held by a list of seeds.
pub open spec fn seeds_view(seeds: Seq<Vec<u8>>) -> Seq<Seq<u8>> {
    seeds.map_values(|s: Vec<u8>| s@)
}

/// What a search result says, with the address as a byte sequence.
pub open spec fn found_view(r: Option<([u8; 32], u8)>) -> Option<(Seq<u8>, u8)> {
    match r {
        Some((a, b)) => Some((a@, b)),
        None => None,
    }
}

/// The seeds of the buffer that `authority` owns under `buffer_seed`.
pub open spec fn authority_seeds(authority: Seq<u8>, buffer_seed: u64) -> Seq<Seq<u8>> {
    seq![authority_tag(), authority, spec_u64_to_le_bytes(buffer_seed)]
}

/// The canonical address and bump of the buffer that `authority` owns under
/// `buffer_seed`.
pub open spec fn authority_address(
    program_id: Seq<u8>,
    authority: Seq<u8>,
    buffer_seed: u64,
) -> Option<(Seq<u8>, u8)> {
    program_address(authority_seeds(authority, buffer_seed), program_id)
}

/// Relies on solana_program's `Pubkey::try_find_program_address`: the address
/// and bump it finds depend on the seeds and the program id alone (it hashes
/// them and tries the bumps in a fixed order, without panicking).
#[verifier::external_body]
fn try_find_program_address(seeds: &Vec<Vec<u8>>, program_id: &[u8; 32]) -> (r: Option<
    ([u8; 32], u8),
>)
    ensures
        found_view(r) == program_address(seeds_view(seeds@), program_id@),
{
    let refs: Vec<&[u8]> = seeds.iter().map(|s| s.as_slice()).collect();
    let id = Pubkey::new_from_array(*program_id);
    Pubkey::try_find_program_address(&refs, &id).map(|(a, b)| (a.to_bytes(), b))
}

/// Whether two keys hold the same bytes.
pub fn same_key(a: &[u8; 32], b: &[u8; 32]) -> (r: bool)
    ensures
        r == (a@ == b@),
{
    let mut i: usize = 0;
    while i < 32
        invariant
            i <= 32,
            a@.len() == 32,
            b@.len() == 32,
            a@.subrange(0, i as int) == b@.subrange(0, i as int),
        decreases 32 - i,
    {
        if a[i] != b[i] {
            assert(a@[i as int] != b@[i as int]);
            return false;
        }
        assert(a@.subrange(0, i + 1) =~= a@.subrange(0, i as int).push(a@[i as int]));
        assert(b@.subrange(0, i + 1) =~= b@.subrange(0, i as int).push(b@[i as int]));
        i = i + 1;
    }
    assert(a@ =~= a@.subrange(0, 32));
    assert(b@ =~= b@.subrange(0, 32));
    true
}

/// The seeds of the buffer that `authority` owns under `buffer_seed`.
pub fn authority_seed_list(authority: &[u8; 32], buffer_seed: u64) -> (r: Vec<Vec<u8>>)
    ensures
        seeds_view(r@) == authority_seeds(authority@, buffer_seed),
{
    let tag: Vec<u8> = vec![97u8, 117u8, 116u8, 104u8, 111u8, 114u8, 105u8, 116u8, 121u8];
    assert(tag@ =~= authority_tag());
    let key: Vec<u8> = slice_to_vec(authority.as_slice());
    let seed: Vec<u8> = u64_to_le_bytes(buffer_seed);
    let r: Vec<Vec<u8>> = vec![tag, key, seed];
    assert(seeds_view(r@) =~= authority_seeds(authority@, buffer_seed));
    r
}

/// The seeds with which the program signs for the buffer: those of the
/// address, then the bump.
pub fn signer_seed_list(authority: &[u8; 32], buffer_seed: u64, bump_seed: u8) -> (r: Vec<
    Vec<u8>,
>)
    ensures
        seeds_view(r@) == authority_seeds(authority@, buffer_seed).push(seq![bump_seed]),
{
    let mut r = authority_seed_list(authority, buffer_seed);
    let bump: Vec<u8> = vec![bump_seed];
    assert(bump@ =~= seq![bump_seed]);
    let ghost before = r@;
    r.push(bump);
    assert(r@ == before.push(bump));
    assert(seeds_view(r@) =~= authority_seeds(authority@, buffer_seed).push(seq![bump_seed]));
    r
}

/// Derives the canonical address and bump of the buffer that `authority` owns
/// under `buffer_seed`.
pub fn derive_authority_address(
    program_id: &[u8; 32],
    authority: &[u8; 32],
    buffer_seed: u64,
) -> (r: Option<([u8; 32], u8)>)
    ensures
        found_view(r) == authority_address(program_id@, authority@, buffer_seed),
{
    let seeds = authority_seed_list(authority, buffer_seed);
    try_find_program_address(&seeds, program_id)
}

/// Derivation is deterministic: the same program, authority and seed always
/// give the same address and bump.
pub proof fn lemma_derive_deterministic(
    program_id: Seq<u8>,
    authority: Seq<u8>,
    buffer_seed: u64,
    r1: Option<([u8; 32], u8)>,
    r2: Option<([u8; 32], u8)>,
)
    requires
        found_view(r1) == authority_address(program_id, authority, buffer_seed),
        found_view(r2) == authority_address(program_id, authority, buffer_seed),
    ensures
        found_view(r1) == found_view(r2),
{
}

} // verus!
