//! Laws of the store: what holds of appending and listing on every ledger
//! that answers as the model says.

use crate::address::{lemma_record_locations_exist, spec_index_address, spec_item_address};
use crate::error::StoreError;
use crate::ledger::{zeroed, Ledger};
use crate::listing::ListerView;
use crate::program::AccountView;
use crate::record::{frameable, index_decoding, lemma_index_round_trip, lemma_item_round_trip};
use crate::store::{
    counts, fresh, holds_item, lemma_append_outcome, listing_requests, numbered, run_listing,
    spec_append, spec_list_all, stores, with_item,
};
use vstd::prelude::*;

verus! {

/// The sequence ids `first`, `first + 1`, and so on, `n` of them.
pub open spec fn ids_from(first: nat, n: nat) -> Seq<u32> {
    Seq::new(n, |i: int| (first + i) as u32)
}

/// Appending each of `contents` in turn on the model ledger: the ledger
/// after the last append and the sequence ids that were returned, if every
/// append succeeded.
pub open spec fn spec_append_all(
    ledger: Ledger,
    owner: Seq<u8>,
    namespace: Seq<u8>,
    contents: Seq<Seq<char>>,
) -> Option<(Ledger, Seq<u32>)>
    decreases contents.len(),
{
    if contents.len() == 0 {
        Some((ledger, Seq::empty()))
    } else {
        let (next, result) = spec_append(ledger, owner, namespace, contents[0]);
        match result {
            Err(_) => None,
            Ok(id) => match spec_append_all(next, owner, namespace, contents.drop_first()) {
                None => None,
                Some((last, ids)) => Some((last, seq![id] + ids)),
            },
        }
    }
}

/// In a ledger that holds the posts of an owner, no item record lies at
/// the location of the index record.
pub proof fn lemma_items_apart_from_index(
    ledger: Ledger,
    owner: Seq<u8>,
    namespace: Seq<u8>,
    posts: Seq<Seq<char>>,
    i: int,
)
    requires
        stores(ledger, owner, namespace, posts),
        0 <= i < posts.len(),
    ensures
        spec_item_address(owner, namespace, i as nat) != spec_index_address(owner, namespace),
{
    assert(holds_item(ledger, owner, namespace, i, posts[i]));
    lemma_record_locations_exist(owner, namespace, i as nat);
}

/// A successful append to a ledger that holds `posts` returns the number
/// of posts as the sequence id of the new item, advances the counter by
/// exactly one and leaves a ledger that holds `posts` followed by the new
/// text.
pub proof fn lemma_append_extends(
    ledger: Ledger,
    owner: Seq<u8>,
    namespace: Seq<u8>,
    posts: Seq<Seq<char>>,
    content: Seq<char>,
)
    requires
        stores(ledger, owner, namespace, posts),
        spec_append(ledger, owner, namespace, content).1 is Ok,
    ensures
        spec_append(ledger, owner, namespace, content).1 == Ok::<u32, StoreError>(
            posts.len() as u32,
        ),
        stores(
            spec_append(ledger, owner, namespace, content).0,
            owner,
            namespace,
            posts.push(content),
        ),
        counts(
            spec_append(ledger, owner, namespace, content).0,
            owner,
            namespace,
            (posts.len() + 1) as u32,
        ),
{
    let id = posts.len() as u32;
    let index = spec_index_address(owner, namespace)->Ok_0;
    let item = spec_item_address(owner, namespace, id as nat)->Ok_0;
    let after = spec_append(ledger, owner, namespace, content).0;
    let longer = posts.push(content);
    lemma_record_locations_exist(owner, namespace, id as nat);
    lemma_append_outcome(ledger, owner, namespace, content);
    assert(after == with_item(ledger, owner, namespace, id, content));
    lemma_index_round_trip((id + 1) as u32);
    lemma_item_round_trip(content);
    assert forall|i: int| 0 <= i < longer.len() implies #[trigger] holds_item(
        after,
        owner,
        namespace,
        i,
        longer[i],
    ) by {
        if i < posts.len() {
            assert(holds_item(ledger, owner, namespace, i, posts[i]));
            lemma_items_apart_from_index(ledger, owner, namespace, posts, i);
            lemma_record_locations_exist(owner, namespace, i as nat);
        }
    }
}

/// An append for an owner that has no index record does not fail for want
/// of one: it provisions the record and goes on as from a counter of zero.
/// If it succeeds, the new item has the sequence id 0 and the counter
/// stands at 1. It succeeds whenever the text can be framed and the
/// location of item 0 is free and is not the index location.
pub proof fn lemma_first_append(
    ledger: Ledger,
    owner: Seq<u8>,
    namespace: Seq<u8>,
    content: Seq<char>,
)
    requires
        fresh(ledger, owner, namespace),
    ensures
        spec_append(ledger, owner, namespace, content).1 is Ok ==> {
            &&& spec_append(ledger, owner, namespace, content).1 == Ok::<u32, StoreError>(0)
            &&& counts(spec_append(ledger, owner, namespace, content).0, owner, namespace, 1)
            &&& stores(
                spec_append(ledger, owner, namespace, content).0,
                owner,
                namespace,
                seq![content],
            )
        },
        spec_append(ledger, owner, namespace, content).1 is Ok <==> {
            &&& frameable(content)
            &&& !ledger.dom().contains(spec_item_address(owner, namespace, 0)->Ok_0)
            &&& spec_item_address(owner, namespace, 0) != spec_index_address(owner, namespace)
        },
{
    let index = spec_index_address(owner, namespace)->Ok_0;
    let provisioned = ledger.insert(index, AccountView { owner: namespace, data: zeroed(4) });
    lemma_record_locations_exist(owner, namespace, 0);
    lemma_append_outcome(ledger, owner, namespace, content);
    if spec_append(ledger, owner, namespace, content).1 is Ok {
        let none = Seq::<Seq<char>>::empty();
        assert(index_decoding(zeroed(4)) == Some(0u32));
        assert(stores(provisioned, owner, namespace, none));
        lemma_append_outcome(provisioned, owner, namespace, content);
        lemma_append_extends(provisioned, owner, namespace, none, content);
        assert(none.push(content) =~= seq![content]);
    }
}

/// A listing that has produced the items below `id` produces the others,
/// in order, and ends well.
proof fn lemma_listing_from(
    ledger: Ledger,
    m: ListerView,
    posts: Seq<Seq<char>>,
    id: nat,
    requests: nat,
)
    requires
        stores(ledger, m.owner, m.namespace, posts),
        id <= posts.len(),
        requests >= posts.len() - id,
    ensures
        run_listing(
            ledger,
            crate::listing::spec_seek(m, id, posts.len() as u32).0,
            crate::listing::spec_seek(m, id, posts.len() as u32).1,
            requests,
        ) == (numbered(posts).subrange(id as int, posts.len() as int), Ok::<(), StoreError>(())),
    decreases posts.len() - id,
{
    let count = posts.len() as u32;
    let (seeking, next) = crate::listing::spec_seek(m, id, count);
    let all = numbered(posts);
    if id < posts.len() {
        lemma_record_locations_exist(m.owner, m.namespace, id);
        assert(holds_item(ledger, m.owner, m.namespace, id as int, posts[id as int]));
        lemma_listing_from(ledger, seeking, posts, id + 1, (requests - 1) as nat);
        assert(crate::listing::spec_seek(seeking, id + 1, count) == crate::listing::spec_seek(
            m,
            id + 1,
            count,
        ));
        let later = all.subrange(id as int + 1, posts.len() as int);
        assert(seq![all[id as int]] + later =~= all.subrange(id as int, posts.len() as int));
    } else {
        assert(all.subrange(id as int, posts.len() as int) =~= Seq::<
            (u32, Seq<char>),
        >::empty());
    }
}

/// Listing a ledger that holds `posts` produces exactly these texts, each
/// with its position as sequence id, from 0 on and in order.
pub proof fn lemma_list_all_of_store(
    ledger: Ledger,
    owner: Seq<u8>,
    namespace: Seq<u8>,
    posts: Seq<Seq<char>>,
)
    requires
        stores(ledger, owner, namespace, posts),
    ensures
        spec_list_all(ledger, owner, namespace) == (numbered(posts), Ok::<(), StoreError>(())),
{
    let (m, request) = crate::listing::spec_begin(owner, namespace)->Ok_0;
    lemma_listing_from(ledger, m, posts, 0, (listing_requests() - 1) as nat);
    assert(numbered(posts).subrange(0, posts.len() as int) =~= numbered(posts));
}

/// Listing for an owner that has no index record produces nothing and
/// fails, reporting that the record was not found.
pub proof fn lemma_list_all_absent(ledger: Ledger, owner: Seq<u8>, namespace: Seq<u8>)
    requires
        fresh(ledger, owner, namespace),
    ensures
        spec_list_all(ledger, owner, namespace) == (
            Seq::<(u32, Seq<char>)>::empty(),
            Err::<(), StoreError>(StoreError::NotFound),
        ),
{
    reveal_with_fuel(run_listing, 2);
}

/// Appends to a ledger that holds `posts` return consecutive sequence ids
/// from the number of posts on, and leave a ledger that holds `posts`
/// followed by the appended texts.
pub proof fn lemma_appends_extend(
    ledger: Ledger,
    owner: Seq<u8>,
    namespace: Seq<u8>,
    posts: Seq<Seq<char>>,
    contents: Seq<Seq<char>>,
)
    requires
        stores(ledger, owner, namespace, posts),
        spec_append_all(ledger, owner, namespace, contents) is Some,
    ensures
        spec_append_all(ledger, owner, namespace, contents)->Some_0.1 == ids_from(
            posts.len(),
            contents.len(),
        ),
        stores(
            spec_append_all(ledger, owner, namespace, contents)->Some_0.0,
            owner,
            namespace,
            posts + contents,
        ),
    decreases contents.len(),
{
    if contents.len() == 0 {
        assert(posts + contents =~= posts);
        assert(ids_from(posts.len(), 0) =~= Seq::<u32>::empty());
    } else {
        let (next, result) = spec_append(ledger, owner, namespace, contents[0]);
        lemma_append_extends(ledger, owner, namespace, posts, contents[0]);
        let longer = posts.push(contents[0]);
        let rest = contents.drop_first();
        lemma_appends_extend(next, owner, namespace, longer, rest);
        assert(longer + rest =~= posts + contents);
        assert(seq![posts.len() as u32] + ids_from(longer.len(), rest.len()) =~= ids_from(
            posts.len(),
            contents.len(),
        ));
    }
}

/// After any number of successful appends, one at least, for an owner
/// that had no index record, a listing produces exactly the appended
/// texts, in the order of the appends, with the sequence ids 0, 1, 2 and
/// so on, which are the ids that the appends returned.
pub proof fn lemma_appends_then_list(
    ledger: Ledger,
    owner: Seq<u8>,
    namespace: Seq<u8>,
    contents: Seq<Seq<char>>,
)
    requires
        fresh(ledger, owner, namespace),
        contents.len() >= 1,
        spec_append_all(ledger, owner, namespace, contents) is Some,
    ensures
        spec_append_all(ledger, owner, namespace, contents)->Some_0.1 == ids_from(
            0,
            contents.len(),
        ),
        spec_list_all(
            spec_append_all(ledger, owner, namespace, contents)->Some_0.0,
            owner,
            namespace,
        ) == (numbered(contents), Ok::<(), StoreError>(())),
{
    let (next, result) = spec_append(ledger, owner, namespace, contents[0]);
    let first = seq![contents[0]];
    let rest = contents.drop_first();
    lemma_first_append(ledger, owner, namespace, contents[0]);
    lemma_appends_extend(next, owner, namespace, first, rest);
    assert(first + rest =~= contents);
    assert(seq![0u32] + ids_from(1, rest.len()) =~= ids_from(0, contents.len()));
    let last = spec_append_all(ledger, owner, namespace, contents)->Some_0.0;
    lemma_list_all_of_store(last, owner, namespace, contents);
}

/// Where an item lies depends on the owner, the namespace and the
/// sequence id alone, so appends do not move it: an item that the ledger
/// holds is found at the same location, unchanged, after any number of
/// further appends.
pub proof fn lemma_item_location_stable(
    ledger: Ledger,
    owner: Seq<u8>,
    namespace: Seq<u8>,
    posts: Seq<Seq<char>>,
    contents: Seq<Seq<char>>,
    k: int,
)
    requires
        stores(ledger, owner, namespace, posts),
        spec_append_all(ledger, owner, namespace, contents) is Some,
        0 <= k < posts.len(),
    ensures
        ({
            let after = spec_append_all(ledger, owner, namespace, contents)->Some_0.0;
            let location = spec_item_address(owner, namespace, k as nat)->Ok_0;
            &&& ledger.dom().contains(location)
            &&& after.dom().contains(location)
            &&& after[location] == ledger[location]
        }),
    decreases contents.len(),
{
    assert(holds_item(ledger, owner, namespace, k, posts[k]));
    if contents.len() > 0 {
        let (next, result) = spec_append(ledger, owner, namespace, contents[0]);
        let id = posts.len() as u32;
        lemma_append_outcome(ledger, owner, namespace, contents[0]);
        lemma_append_extends(ledger, owner, namespace, posts, contents[0]);
        lemma_items_apart_from_index(ledger, owner, namespace, posts, k);
        lemma_record_locations_exist(owner, namespace, k as nat);
        lemma_record_locations_exist(owner, namespace, id as nat);
        assert(next == with_item(ledger, owner, namespace, id, contents[0]));
        lemma_item_location_stable(
            next,
            owner,
            namespace,
            posts.push(contents[0]),
            contents.drop_first(),
            k,
        );
    }
}

} // verus!
