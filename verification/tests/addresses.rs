use postly::address::{index_address, item_address, Address, DeriveError};
use postly::seed::{index_account_seed, item_account_seed, INDEX_ACCOUNT_SEED, POST_ACCOUNT_SEED};

const OWNER: [u8; 32] = [1; 32];
const NAMESPACE: [u8; 32] = [2; 32];

const INDEX_LOCATION: [u8; 32] = [
    104, 239, 138, 23, 61, 37, 158, 148, 92, 99, 239, 163, 56, 215, 161, 78, 67, 183, 91, 209, 231,
    178, 121, 118, 211, 7, 79, 124, 71, 182, 63, 8,
];

const ITEM_0_LOCATION: [u8; 32] = [
    89, 175, 59, 251, 66, 239, 109, 210, 23, 206, 129, 35, 27, 165, 39, 133, 199, 203, 32, 242,
    239, 69, 163, 158, 226, 177, 41, 107, 240, 34, 171, 43,
];

const ITEM_1_LOCATION: [u8; 32] = [
    104, 78, 107, 158, 92, 180, 45, 76, 153, 89, 94, 221, 19, 47, 30, 174, 90, 13, 12, 91, 109,
    11, 18, 182, 72, 216, 33, 63, 96, 207, 36, 52,
];

fn reserved_namespace() -> Address {
    let mut bytes = [7u8; 32];
    bytes[11..].copy_from_slice(b"ProgramDerivedAddress");
    Address::new(bytes)
}

#[test]
fn seeds_are_the_fixed_texts() {
    assert_eq!(INDEX_ACCOUNT_SEED, "postly_index");
    assert_eq!(POST_ACCOUNT_SEED, "postly_account");
    assert_eq!(index_account_seed(), "postly_index");
}

#[test]
fn item_seed_ends_with_the_id_in_decimal() {
    assert_eq!(item_account_seed(0), "postly_account_0");
    assert_eq!(item_account_seed(1), "postly_account_1");
    assert_eq!(item_account_seed(9), "postly_account_9");
    assert_eq!(item_account_seed(10), "postly_account_10");
    assert_eq!(item_account_seed(42), "postly_account_42");
    assert_eq!(item_account_seed(100), "postly_account_100");
    assert_eq!(item_account_seed(1_000_000), "postly_account_1000000");
    assert_eq!(item_account_seed(u32::MAX), "postly_account_4294967295");
}

#[test]
fn item_seed_agrees_with_formatting() {
    for id in [0u32, 5, 19, 20, 99, 101, 9_999, 10_000, 123_456_789, u32::MAX - 1] {
        assert_eq!(item_account_seed(id), format!("{}_{}", POST_ACCOUNT_SEED, id));
    }
}

#[test]
fn address_keeps_its_bytes() {
    let address = Address::new(INDEX_LOCATION);
    assert_eq!(address.to_bytes(), INDEX_LOCATION);
    assert_eq!(address.bytes, INDEX_LOCATION);
}

#[test]
fn addresses_compare_by_their_bytes() {
    let mut other = OWNER;
    other[31] = 9;
    assert!(Address::new(OWNER) == Address::new(OWNER));
    assert!(Address::new(OWNER) != Address::new(other));
    assert!(Address::new(OWNER) != Address::new(NAMESPACE));
}

#[test]
fn derive_gives_the_digest_of_its_inputs() {
    let owner = Address::new(OWNER);
    let namespace = Address::new(NAMESPACE);
    let index = postly::address::derive(&owner, "postly_index", &namespace).unwrap();
    assert_eq!(index.to_bytes(), INDEX_LOCATION);
    let longest = postly::address::derive(&owner, &"x".repeat(32), &namespace).unwrap();
    assert_eq!(
        longest.to_bytes(),
        [
            113, 47, 50, 65, 185, 208, 36, 196, 73, 31, 203, 229, 157, 120, 72, 7, 174, 199, 52,
            107, 131, 178, 19, 246, 16, 111, 91, 86, 13, 101, 160, 226,
        ]
    );
}

#[test]
fn derive_is_deterministic() {
    let owner = Address::new(OWNER);
    let namespace = Address::new(NAMESPACE);
    let first = postly::address::derive(&owner, "postly_index", &namespace).unwrap();
    let second = postly::address::derive(&owner, "postly_index", &namespace).unwrap();
    assert!(first == second);
    assert!(first != owner);
    assert!(first != namespace);
}

#[test]
fn derive_depends_on_each_input() {
    let owner = Address::new(OWNER);
    let namespace = Address::new(NAMESPACE);
    let base = postly::address::derive(&owner, "seed", &namespace).unwrap();
    assert!(base != postly::address::derive(&namespace, "seed", &namespace).unwrap());
    assert!(base != postly::address::derive(&owner, "seed", &owner).unwrap());
    assert!(base != postly::address::derive(&owner, "seee", &namespace).unwrap());
}

#[test]
fn derive_refuses_a_seed_that_is_too_long() {
    let owner = Address::new(OWNER);
    let namespace = Address::new(NAMESPACE);
    assert!(postly::address::derive(&owner, &"x".repeat(32), &namespace).is_ok());
    assert_eq!(
        postly::address::derive(&owner, &"x".repeat(33), &namespace).err(),
        Some(DeriveError::InvalidSeed)
    );
    // sixteen characters of two bytes each fit, seventeen do not
    assert!(postly::address::derive(&owner, &"é".repeat(16), &namespace).is_ok());
    assert_eq!(
        postly::address::derive(&owner, &"é".repeat(17), &namespace).err(),
        Some(DeriveError::InvalidSeed)
    );
    assert_eq!(
        postly::address::derive(&owner, &"x".repeat(33), &reserved_namespace()).err(),
        Some(DeriveError::InvalidSeed)
    );
}

#[test]
fn derive_refuses_a_reserved_namespace() {
    let owner = Address::new(OWNER);
    assert_eq!(
        postly::address::derive(&owner, "postly_index", &reserved_namespace()).err(),
        Some(DeriveError::IllegalNamespace)
    );
    assert_eq!(
        index_address(&owner, &reserved_namespace()).err(),
        Some(DeriveError::IllegalNamespace)
    );
    assert_eq!(
        item_address(&owner, &reserved_namespace(), 3).err(),
        Some(DeriveError::IllegalNamespace)
    );
}

#[test]
fn record_locations_are_derived_from_their_seeds() {
    let owner = Address::new(OWNER);
    let namespace = Address::new(NAMESPACE);
    assert_eq!(index_address(&owner, &namespace).unwrap().to_bytes(), INDEX_LOCATION);
    assert_eq!(item_address(&owner, &namespace, 0).unwrap().to_bytes(), ITEM_0_LOCATION);
    assert_eq!(item_address(&owner, &namespace, 1).unwrap().to_bytes(), ITEM_1_LOCATION);
    let last = item_address(&owner, &namespace, u32::MAX).unwrap();
    let by_seed = postly::address::derive(&owner, "postly_account_4294967295", &namespace).unwrap();
    assert!(last == by_seed);
}

#[test]
fn decimal_is_appended_to_what_is_there() {
    let mut text = String::from("n=");
    postly::decimal::push_decimal(&mut text, 0);
    assert_eq!(text, "n=0");
    postly::decimal::push_decimal(&mut text, 1234567890);
    assert_eq!(text, "n=01234567890");
    postly::decimal::push_decimal(&mut text, 4_000_000_009);
    assert_eq!(text, "n=012345678904000000009");
}
