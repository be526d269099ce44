//! Ledger addresses and their deterministic derivation from a seed.

use crate::seed::{
    index_account_seed, index_seed, item_account_seed, item_seed, lemma_index_seed_fits,
    lemma_item_seed_fits,
};
use vstd::prelude::*;
use vstd::std_specs::cmp::PartialEqSpecImpl;

verus! {

/// Longest seed, in bytes, that the ledger accepts in a derivation.
pub const MAX_SEED_LEN: usize = 32;

/// A storage location or an identity on the ledger: 32 bytes.
#[derive(Clone, Copy, Debug)]
pub struct Address {
    pub bytes: [u8; 32],
}

impl View for Address {
    type V = Seq<u8>;

    open spec fn view(&self) -> Seq<u8> {
        self.bytes@
    }
}

impl Address {
    /// The address made of `bytes`.
    pub fn new(bytes: [u8; 32]) -> (a: Address)
        ensures
            a@ == bytes@,
    {
        Address { bytes }
    }

    /// The bytes of this address.
    pub fn to_bytes(&self) -> (bytes: [u8; 32])
        ensures
            bytes@ == self@,
    {
        self.bytes
    }
}

impl PartialEq for Address {
    fn eq(&self, other: &Address) -> (same: bool) {
        let mut i: usize = 0;
        while i < 32
            invariant
                i <= 32,
                forall|j: int| 0 <= j < i ==> self@[j] == other@[j],
            decreases 32 - i,
        {
            if self.bytes[i] != other.bytes[i] {
                return false;
            }
            i += 1;
        }
        assert(self@ =~= other@);
        true
    }
}

impl PartialEqSpecImpl for Address {
    open spec fn obeys_eq_spec() -> bool {
        true
    }

    open spec fn eq_spec(&self, other: &Address) -> bool {
        self@ == other@
    }
}

impl Eq for Address {

}

/// Why a derivation was refused.
#[derive(Clone, Copy, Debug, PartialEq, Eq, Structural)]
pub enum DeriveError {
    /// The seed is longer than `MAX_SEED_LEN` bytes.
    InvalidSeed,
    /// The namespace identity is reserved for program derived addresses.
    IllegalNamespace,
}

/// The bytes that end a namespace identity reserved for program derived
/// addresses: the ASCII text `ProgramDerivedAddress`.
pub open spec fn reserved_suffix() -> Seq<u8> {
    seq![
        0x50u8, 0x72u8, 0x6fu8, 0x67u8, 0x72u8, 0x61u8, 0x6du8, 0x44u8, 0x65u8, 0x72u8, 0x69u8,
        0x76u8, 0x65u8, 0x64u8, 0x41u8, 0x64u8, 0x64u8, 0x72u8, 0x65u8, 0x73u8, 0x73u8,
    ]
}

/// Whether `namespace` ends with the reserved suffix.
pub open spec fn is_reserved(namespace: Seq<u8>) -> bool {
    namespace.len() >= 21 && namespace.subrange(namespace.len() - 21, namespace.len() as int)
        == reserved_suffix()
}

/// The bytes of a seed: its UTF-8 encoding.
pub open spec fn seed_bytes(seed: Seq<char>) -> Seq<u8> {
    vstd::utf8::encode_utf8(seed)
}

/// The SHA-256 digest that the ledger takes as the address derived from
/// `base`, the UTF-8 bytes of `seed` and `namespace`, in that order.
pub uninterp spec fn seeded_address(base: Seq<u8>, seed: Seq<char>, namespace: Seq<u8>) -> Seq<u8>;

/// `solana_program::pubkey::Pubkey::create_with_seed`. It refuses a seed of
/// more than 32 bytes, then a namespace that ends with the reserved suffix,
/// and otherwise returns the digest of the three inputs, which depends on
/// nothing else.
#[verifier::external_body]
fn create_with_seed(base: &Address, seed: &str, namespace: &Address) -> (r: Result<
    Address,
    DeriveError,
>)
    ensures
        seed_bytes(seed@).len() > MAX_SEED_LEN ==> r is Err && r->Err_0 == DeriveError::InvalidSeed,
        seed_bytes(seed@).len() <= MAX_SEED_LEN && is_reserved(namespace@) ==> r is Err && r->Err_0
            == DeriveError::IllegalNamespace,
        seed_bytes(seed@).len() <= MAX_SEED_LEN && !is_reserved(namespace@) ==> r is Ok
            && r->Ok_0@ == seeded_address(base@, seed@, namespace@),
{
    let base = solana_program::pubkey::Pubkey::new_from_array(base.bytes);
    let namespace = solana_program::pubkey::Pubkey::new_from_array(namespace.bytes);
    match solana_program::pubkey::Pubkey::create_with_seed(&base, seed, &namespace) {
        Ok(key) => Ok(Address { bytes: key.to_bytes() }),
        Err(solana_program::pubkey::PubkeyError::MaxSeedLengthExceeded) => Err(
            DeriveError::InvalidSeed,
        ),
        Err(solana_program::pubkey::PubkeyError::InvalidSeeds) => Err(DeriveError::InvalidSeed),
        Err(solana_program::pubkey::PubkeyError::IllegalOwner) => Err(
            DeriveError::IllegalNamespace,
        ),
    }
}

/// The location derived from an owner identity, a seed and a namespace
/// identity, as a value.
pub open spec fn spec_derive(owner: Seq<u8>, seed: Seq<char>, namespace: Seq<u8>) -> Result<
    Seq<u8>,
    DeriveError,
> {
    if seed_bytes(seed).len() > MAX_SEED_LEN {
        Err(DeriveError::InvalidSeed)
    } else if is_reserved(namespace) {
        Err(DeriveError::IllegalNamespace)
    } else {
        Ok(seeded_address(owner, seed, namespace))
    }
}

/// Derivation is a function of its three inputs: the same inputs give the
/// same location, whenever and wherever it is computed.
pub proof fn lemma_derive_deterministic(
    owner: Seq<u8>,
    seed: Seq<char>,
    namespace: Seq<u8>,
    other_owner: Seq<u8>,
    other_seed: Seq<char>,
    other_namespace: Seq<u8>,
)
    requires
        owner == other_owner,
        seed == other_seed,
        namespace == other_namespace,
    ensures
        spec_derive(owner, seed, namespace) == spec_derive(
            other_owner,
            other_seed,
            other_namespace,
        ),
{
}

/// Derives the storage location for `seed` under `owner` in `namespace`.
/// The ledger refuses a seed of more than `MAX_SEED_LEN` bytes and a
/// namespace that is reserved.
pub fn derive(owner: &Address, seed: &str, namespace: &Address) -> (r: Result<Address, DeriveError>)
    ensures
        match r {
            Ok(a) => spec_derive(owner@, seed@, namespace@) == Ok::<Seq<u8>, DeriveError>(a@),
            Err(e) => spec_derive(owner@, seed@, namespace@) == Err::<Seq<u8>, DeriveError>(e),
        },
{
    create_with_seed(owner, seed, namespace)
}

/// The location of the index record of `owner` in `namespace`, as a value.
pub open spec fn spec_index_address(owner: Seq<u8>, namespace: Seq<u8>) -> Result<
    Seq<u8>,
    DeriveError,
> {
    spec_derive(owner, index_seed(), namespace)
}

/// The location of the item record with sequence id `id` of `owner` in
/// `namespace`, as a value.
pub open spec fn spec_item_address(owner: Seq<u8>, namespace: Seq<u8>, id: nat) -> Result<
    Seq<u8>,
    DeriveError,
> {
    spec_derive(owner, item_seed(id), namespace)
}

/// The seeds of the records fit the ledger's limit, so a record location
/// can be derived in every namespace that is not reserved, and in no other.
pub proof fn lemma_record_locations_exist(owner: Seq<u8>, namespace: Seq<u8>, id: nat)
    requires
        id <= u32::MAX,
    ensures
        is_reserved(namespace) ==> spec_index_address(owner, namespace) == Err::<
            Seq<u8>,
            DeriveError,
        >(DeriveError::IllegalNamespace) && spec_item_address(owner, namespace, id) == Err::<
            Seq<u8>,
            DeriveError,
        >(DeriveError::IllegalNamespace),
        !is_reserved(namespace) ==> spec_index_address(owner, namespace) is Ok
            && spec_item_address(owner, namespace, id) is Ok,
{
    lemma_index_seed_fits();
    lemma_item_seed_fits(id);
}

/// Derives the location of the index record of `owner` in `namespace`.
pub fn index_address(owner: &Address, namespace: &Address) -> (r: Result<Address, DeriveError>)
    ensures
        match r {
            Ok(a) => spec_index_address(owner@, namespace@) == Ok::<Seq<u8>, DeriveError>(a@),
            Err(e) => spec_index_address(owner@, namespace@) == Err::<Seq<u8>, DeriveError>(e),
        },
{
    let seed = index_account_seed();
    derive(owner, seed.as_str(), namespace)
}

/// Derives the location of the item record with sequence id `id` of
/// `owner` in `namespace`.
pub fn item_address(owner: &Address, namespace: &Address, id: u32) -> (r: Result<
    Address,
    DeriveError,
>)
    ensures
        match r {
            Ok(a) => spec_item_address(owner@, namespace@, id as nat) == Ok::<
                Seq<u8>,
                DeriveError,
            >(a@),
            Err(e) => spec_item_address(owner@, namespace@, id as nat) == Err::<
                Seq<u8>,
                DeriveError,
            >(e),
        },
{
    let seed = item_account_seed(id);
    derive(owner, seed.as_str(), namespace)
}

} // verus!
