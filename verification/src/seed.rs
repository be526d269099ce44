//! The seed strings from which record locations are derived.

use crate::decimal::{decimal, lemma_decimal_injective, lemma_decimal_shape, push_decimal};
use vstd::prelude::*;
use vstd::string::StringExecFns;
use vstd::utf8::{encode_utf8, is_ascii_chars, is_ascii_chars_encode_utf8};

verus! {

/// Seed of the index record.
pub const INDEX_ACCOUNT_SEED: &'static str = "postly_index";

/// First part of the seed of every item record.
pub const POST_ACCOUNT_SEED: &'static str = "postly_account";

/// The seed of the index record, as a value.
pub open spec fn index_seed() -> Seq<char> {
    INDEX_ACCOUNT_SEED@
}

/// The seed of the item record with sequence id `id`: the item prefix, an
/// underscore and the decimal representation of `id`.
pub open spec fn item_seed(id: nat) -> Seq<char> {
    POST_ACCOUNT_SEED@ + seq!['_'] + decimal(id)
}

/// The seed of the index record fits the ledger's limit.
pub proof fn lemma_index_seed_fits()
    ensures
        is_ascii_chars(index_seed()),
        encode_utf8(index_seed()).len() == 12,
{
    reveal_strlit("postly_index");
    is_ascii_chars_encode_utf8(index_seed());
}

/// The seed of every item record whose id fits 32 bits is ASCII and at
/// most 25 bytes long, so it fits the ledger's limit.
pub proof fn lemma_item_seed_fits(id: nat)
    requires
        id < 4294967296,
    ensures
        is_ascii_chars(item_seed(id)),
        encode_utf8(item_seed(id)).len() == item_seed(id).len(),
        16 <= item_seed(id).len() <= 25,
{
    reveal_strlit("postly_account");
    lemma_decimal_shape(id);
    is_ascii_chars_encode_utf8(item_seed(id));
}

/// Seeds of different item records differ.
pub proof fn lemma_item_seed_injective(a: nat, b: nat)
    requires
        item_seed(a) == item_seed(b),
    ensures
        a == b,
{
    reveal_strlit("postly_account");
    let p = POST_ACCOUNT_SEED@ + seq!['_'];
    assert(item_seed(a).subrange(p.len() as int, item_seed(a).len() as int) == decimal(a));
    assert(item_seed(b).subrange(p.len() as int, item_seed(b).len() as int) == decimal(b));
    lemma_decimal_injective(a, b);
}

/// No item record shares its seed with the index record.
pub proof fn lemma_item_seed_is_not_index_seed(id: nat)
    ensures
        item_seed(id) != index_seed(),
{
    reveal_strlit("postly_account");
    reveal_strlit("postly_index");
    assert(item_seed(id)[7] == 'a');
    assert(index_seed()[7] == 'i');
}

/// The seed of the index record.
pub fn index_account_seed() -> (s: String)
    ensures
        s@ == index_seed(),
{
    String::from_str(INDEX_ACCOUNT_SEED)
}

/// The seed of the item record with sequence id `id`.
pub fn item_account_seed(id: u32) -> (s: String)
    ensures
        s@ == item_seed(id as nat),
{
    let mut s = String::from_str(POST_ACCOUNT_SEED);
    proof {
        reveal_strlit("_");
    }
    s.append("_");
    push_decimal(&mut s, id);
    assert(s@ =~= item_seed(id as nat));
    s
}

} // verus!
