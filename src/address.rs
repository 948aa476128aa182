//! Program addresses of records: derived from the owner's key and the
//! record's title under the program's key.

use solana_program::pubkey::Pubkey;
use vstd::prelude::*;

verus! {

/// A 32-byte account key.
pub type Key = [u8; 32];

/// The longest seed, in bytes, that address derivation accepts.
pub const MAX_SEED_LEN: usize = 32;

/// The address and bump seed that the search over bump seeds finds for the
/// seeds `[owner, title]` under `program`, if any.
pub uninterp spec fn program_address(owner: Seq<u8>, title: Seq<u8>, program: Seq<u8>) -> Option<
    (Seq<u8>, u8),
>;

/// The key of the system program: 32 zero bytes.
pub open spec fn system_program_key() -> Seq<u8> {
    Seq::new(32, |i: int| 0u8)
}

/// Relies on `Pubkey::try_find_program_address`: a search over bump seeds
/// that depends on the seeds and the program key alone, and that finds
/// nothing when a seed is longer than `MAX_SEED_LEN` bytes.
#[verifier::external_body]
fn find_program_address(owner: &Key, title: &[u8], program: &Key) -> (r: Option<(Key, u8)>)
    ensures
        match r {
            Some((a, bump)) => program_address(owner@, title@, program@) == Some((a@, bump)),
            None => program_address(owner@, title@, program@) is None,
        },
        title@.len() > MAX_SEED_LEN ==> r is None,
{
    let owner_key = Pubkey::new_from_array(*owner);
    let program_key = Pubkey::new_from_array(*program);
    Pubkey::try_find_program_address(&[owner_key.as_ref(), title], &program_key).map(
        |(a, bump)| (a.to_bytes(), bump),
    )
}

/// Relies on `system_program::check_id`: whether a key is the system
/// program's.
#[verifier::external_body]
pub(crate) fn is_system_program(key: &Key) -> (r: bool)
    ensures
        r == (key@ == system_program_key()),
{
    solana_program::system_program::check_id(&Pubkey::new_from_array(*key))
}

/// Whether two keys are equal.
pub fn same_key(a: &Key, b: &Key) -> (r: bool)
    ensures
        r == (a@ == b@),
{
    let mut i: usize = 0;
    while i < 32
        invariant
            i <= 32,
            a@.len() == 32,
            b@.len() == 32,
            forall|j: int| 0 <= j < i ==> a@[j] == b@[j],
        decreases 32 - i,
    {
        if a[i] != b[i] {
            return false;
        }
        i = i + 1;
    }
    assert(a@ =~= b@);
    true
}

/// The address of the record titled `title` (its UTF-8 bytes) that `owner`
/// holds under `program`, with its bump seed. Fails when no address can be
/// derived, which is always the case for a title longer than `MAX_SEED_LEN`
/// bytes.
pub fn derive_address(owner: &Key, title: &[u8], program: &Key) -> (r: Option<(Key, u8)>)
    ensures
        derive_result(owner@, title@, program@, r),
        title@.len() > MAX_SEED_LEN ==> r is None,
{
    find_program_address(owner, title, program)
}

/// Whether `r` is what derivation gives for the given keys and title.
pub open spec fn derive_result(owner: Seq<u8>, title: Seq<u8>, program: Seq<u8>, r: Option<
    (Key, u8),
>) -> bool {
    match r {
        Some((a, bump)) => program_address(owner, title, program) == Some((a@, bump)),
        None => program_address(owner, title, program) is None,
    }
}

/// Derivation is deterministic: two results for the same owner, title and
/// program are the same address and bump seed.
pub proof fn lemma_derive_deterministic(
    owner: Seq<u8>,
    title: Seq<u8>,
    program: Seq<u8>,
    r1: Option<(Key, u8)>,
    r2: Option<(Key, u8)>,
)
    requires
        derive_result(owner, title, program, r1),
        derive_result(owner, title, program, r2),
    ensures
        r1 == r2,
{
    match (r1, r2) {
        (Some((a1, b1)), Some((a2, b2))) => {
            assert(a1@ =~= a2@);
            assert(a1 == a2);
        },
        _ => {},
    }
}

} // verus!
