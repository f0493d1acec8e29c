use crate::error::LedgerError;
use vstd::prelude::*;
use vstd::slice::*;
use vstd::string::*;
use vstd::utf8::*;

verus! {

/// An identity: an opaque public identifier of 32 bytes. It names a signer and
/// serves as a derivation seed and as a storage address.
pub type Pubkey = [u8; 32];

/// The longest seed that a derivation accepts, in bytes.
pub const MAX_SEED_LEN: usize = 32;

/// A derivation takes fewer seeds than this, the namespace tag counted.
pub const MAX_SEEDS: usize = 16;

/// The namespace tag of identity records: the ASCII bytes of `user`.
pub const USER_SEED: [u8; 4] = [117, 115, 101, 114];

/// The namespace tag of balance records: the ASCII bytes of `balance`.
pub const BALANCE_SEED: [u8; 7] = [98, 97, 108, 97, 110, 99, 101];

/// The address and bump seed that the program `program_id` owns for the
/// ordered `seeds`, or `None` where the seeds admit none.
pub uninterp spec fn program_address(seeds: Seq<Seq<u8>>, program_id: Seq<u8>) -> Option<
    (Seq<u8>, u8),
>;

/// The seeds of a derivation in the order in which they are hashed: the
/// namespace tag first, then each seed in turn.
pub open spec fn ordered_seeds(tag: Seq<u8>, seeds: Seq<Seq<u8>>) -> Seq<Seq<u8>> {
    seq![tag] + seeds
}

/// The address and bump seed derived for `tag` and `seeds` under `program_id`.
pub open spec fn derived(tag: Seq<u8>, seeds: Seq<Seq<u8>>, program_id: Seq<u8>) -> Option<
    (Seq<u8>, u8),
> {
    program_address(ordered_seeds(tag, seeds), program_id)
}

/// The seeds behind the tag of an identity record: the signer.
pub open spec fn user_seeds(signer: Seq<u8>) -> Seq<Seq<u8>> {
    seq![signer]
}

/// The seeds behind the tag of a balance record: the owner, then the UTF-8
/// form of the asset symbol.
pub open spec fn balance_seeds(owner: Seq<u8>, symbol: Seq<char>) -> Seq<Seq<u8>> {
    seq![owner, encode_utf8(symbol)]
}

/// Where the identity record of `signer` stands, with its bump seed.
pub open spec fn user_address(program_id: Seq<u8>, signer: Seq<u8>) -> Option<(Seq<u8>, u8)> {
    derived(USER_SEED@, user_seeds(signer), program_id)
}

/// Where the balance record of `owner` for `symbol` stands, with its bump
/// seed.
pub open spec fn balance_address(program_id: Seq<u8>, owner: Seq<u8>, symbol: Seq<char>) -> Option<
    (Seq<u8>, u8),
> {
    derived(BALANCE_SEED@, balance_seeds(owner, symbol), program_id)
}

/// Whether `candidate` is the address derived for `tag` and `seeds`.
pub open spec fn is_derived(
    candidate: Seq<u8>,
    tag: Seq<u8>,
    seeds: Seq<Seq<u8>>,
    program_id: Seq<u8>,
) -> bool {
    derived(tag, seeds, program_id) matches Some((address, _)) && address == candidate
}

/// Calls `solana_program::pubkey::Pubkey::try_find_program_address`.
///
/// Trusted: the result is a function of the seeds and the program id alone,
/// named `program_address`; and no address is found when the seeds, with the
/// bump seed that the search appends, are more than `MAX_SEEDS`, or when one
/// of them is longer than `MAX_SEED_LEN`.
#[verifier::external_body]
pub(crate) fn find_program_address(seeds: &Vec<Vec<u8>>, program_id: &Pubkey) -> (found: Option<
    (Pubkey, u8),
>)
    ensures
        found matches Some((address, bump)) ==> program_address(seeds.deep_view(), program_id@)
            == Some((address@, bump)),
        found is None ==> program_address(seeds.deep_view(), program_id@) is None,
        seeds.len() >= MAX_SEEDS ==> found is None,
        (exists|i: int| 0 <= i < seeds.len() && seeds[i].len() > MAX_SEED_LEN) ==> found is None,
{
    let parts: Vec<&[u8]> = seeds.iter().map(|seed| seed.as_slice()).collect();
    let id = solana_program::pubkey::Pubkey::new_from_array(*program_id);
    solana_program::pubkey::Pubkey::try_find_program_address(&parts, &id).map(
        |(address, bump)| (address.to_bytes(), bump),
    )
}

/// Whether two identities are the same bytes.
pub fn same_key(a: &Pubkey, b: &Pubkey) -> (same: bool)
    ensures
        same == (a@ == b@),
{
    let mut i: usize = 0;
    while i < 32
        invariant
            i <= 32,
            forall|j: int| 0 <= j < i ==> a@[j] == b@[j],
        decreases 32 - i,
    {
        if a[i] != b[i] {
            return false;
        }
        i += 1;
    }
    assert(a@ =~= b@);
    true
}

/// Puts the namespace tag in front of the seeds.
pub fn collect_seeds(tag: &[u8], seeds: &Vec<Vec<u8>>) -> (all: Vec<Vec<u8>>)
    ensures
        all.deep_view() == ordered_seeds(tag@, seeds.deep_view()),
{
    let mut all: Vec<Vec<u8>> = Vec::new();
    all.push(slice_to_vec(tag));
    let mut i: usize = 0;
    while i < seeds.len()
        invariant
            i <= seeds.len(),
            all@.len() == i + 1,
            all@[0]@ == tag@,
            forall|j: int| 0 <= j < i ==> (#[trigger] all@[j + 1])@ == seeds@[j]@,
        decreases seeds.len() - i,
    {
        all.push(slice_to_vec(seeds[i].as_slice()));
        i += 1;
    }
    proof {
        let ordered = ordered_seeds(tag@, seeds.deep_view());
        assert forall|k: int| 0 <= k < all@.len() implies all.deep_view()[k] =~= ordered[k] by {
            if k > 0 {
                assert(all@[(k - 1) + 1]@ == seeds@[k - 1]@);
            }
        }
        assert(all.deep_view() =~= ordered);
    }
    all
}

/// The seeds behind the tag of the identity record of `signer`.
pub fn user_seed_list(signer: &Pubkey) -> (seeds: Vec<Vec<u8>>)
    ensures
        seeds.deep_view() == user_seeds(signer@),
{
    let mut seeds: Vec<Vec<u8>> = Vec::new();
    seeds.push(slice_to_vec(signer.as_slice()));
    assert(seeds.deep_view() =~~= user_seeds(signer@));
    seeds
}

/// The seeds behind the tag of the balance record of `owner` for `symbol`.
pub fn balance_seed_list(owner: &Pubkey, symbol: &str) -> (seeds: Vec<Vec<u8>>)
    ensures
        seeds.deep_view() == balance_seeds(owner@, symbol@),
{
    let mut seeds: Vec<Vec<u8>> = Vec::new();
    seeds.push(slice_to_vec(owner.as_slice()));
    seeds.push(slice_to_vec(symbol.as_bytes()));
    assert(seeds.deep_view() =~~= balance_seeds(owner@, symbol@));
    seeds
}

/// Derives the address that `program_id` owns for `tag` and `seeds`, and the
/// bump seed that makes it one no key pair can sign for.
///
/// The seeds are hashed in the order given, the tag first. `None` where the
/// seeds admit no address: with the tag they are `MAX_SEEDS` or more, or one
/// of them, the tag included, is longer than `MAX_SEED_LEN`.
pub fn derive(tag: &[u8], seeds: &Vec<Vec<u8>>, program_id: &Pubkey) -> (found: Option<
    (Pubkey, u8),
>)
    ensures
        match found {
            Some((address, bump)) => derived(tag@, seeds.deep_view(), program_id@) == Some(
                (address@, bump),
            ),
            None => derived(tag@, seeds.deep_view(), program_id@) is None,
        },
        1 + seeds.len() >= MAX_SEEDS ==> found is None,
        tag@.len() > MAX_SEED_LEN ==> found is None,
        (exists|i: int| 0 <= i < seeds.len() && seeds[i].len() > MAX_SEED_LEN) ==> found is None,
{
    let all = collect_seeds(tag, seeds);
    proof {
        let ordered = ordered_seeds(tag@, seeds.deep_view());
        assert(all@.len() == ordered.len());
        assert(all@[0]@ == ordered[0]);
        if exists|i: int| 0 <= i < seeds.len() && seeds[i].len() > MAX_SEED_LEN {
            let i = choose|i: int| 0 <= i < seeds.len() && seeds[i].len() > MAX_SEED_LEN;
            assert(all@[i + 1]@ == ordered[i + 1]);
            assert(all@[i + 1].len() > MAX_SEED_LEN);
        }
    }
    find_program_address(&all, program_id)
}

/// Checks a supplied address against the one derived for `tag` and `seeds`,
/// and gives the bump seed of the derivation. An address that differs, or
/// seeds that admit none, are rejected with `AddressMismatch`: no address
/// passes where a seed is longer than `MAX_SEED_LEN`.
pub fn verify(candidate: &Pubkey, tag: &[u8], seeds: &Vec<Vec<u8>>, program_id: &Pubkey) -> (out:
    Result<u8, LedgerError>)
    ensures
        match out {
            Ok(bump) => derived(tag@, seeds.deep_view(), program_id@) == Some((candidate@, bump)),
            Err(e) => e == LedgerError::AddressMismatch && !is_derived(
                candidate@,
                tag@,
                seeds.deep_view(),
                program_id@,
            ),
        },
        (exists|i: int| 0 <= i < seeds.len() && seeds[i].len() > MAX_SEED_LEN) ==> out is Err,
{
    match derive(tag, seeds, program_id) {
        Some((address, bump)) => {
            if same_key(&address, candidate) {
                Ok(bump)
            } else {
                Err(LedgerError::AddressMismatch)
            }
        },
        None => Err(LedgerError::AddressMismatch),
    }
}

/// Derivation is a function of its inputs: the same tag, the same seeds in
/// the same order and the same program give the same address and the same
/// bump seed.
pub proof fn derivation_is_deterministic(
    tag_a: Seq<u8>,
    seeds_a: Seq<Seq<u8>>,
    program_a: Seq<u8>,
    tag_b: Seq<u8>,
    seeds_b: Seq<Seq<u8>>,
    program_b: Seq<u8>,
)
    requires
        tag_a == tag_b,
        seeds_a == seeds_b,
        program_a == program_b,
    ensures
        derived(tag_a, seeds_a, program_a) == derived(tag_b, seeds_b, program_b),
{
}

} // verus!
