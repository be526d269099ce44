//! The store as a whole: what appending and listing do to a ledger that
//! answers as the model says, and the laws that follow.

use crate::address::{
    is_reserved, lemma_record_locations_exist, spec_index_address, spec_item_address,
};
use crate::append::{
    append_operations, provision_operations, AppendOutputView, AppendPhase, AppenderView,
};
use crate::error::StoreError;
use crate::ledger::{
    allocated, answered, applied, invoked, submitted, zeroed, Ledger, OperationView,
};
use crate::listing::{ListNextView, ListerView};
use crate::program::{overwritten, spec_process, AccountView};
use crate::record::{
    frameable, index_decoding, index_encoding, item_decoding, item_encoding,
    lemma_item_round_trip,
};
use vstd::prelude::*;

verus! {

/// An append that is driven to its end by the model ledger: the ledger
/// after it, and the sequence id of the new item or the reason for which
/// there is none. An append puts at most three requests.
pub open spec fn run_append(
    ledger: Ledger,
    m: AppenderView,
    output: AppendOutputView,
    requests: nat,
) -> (Ledger, Result<u32, StoreError>)
    decreases requests,
{
    match output {
        AppendOutputView::Done(result) => (ledger, result),
        AppendOutputView::Ask(request) => {
            if requests == 0 {
                (ledger, Err(StoreError::OutOfTurn))
            } else {
                let (next, event) = answered(ledger, request);
                let (m, output) = crate::append::spec_step(m, event);
                run_append(next, m, output, (requests - 1) as nat)
            }
        },
    }
}

/// `append` on the model ledger: the ledger after it and what it returns.
pub open spec fn spec_append(
    ledger: Ledger,
    owner: Seq<u8>,
    namespace: Seq<u8>,
    content: Seq<char>,
) -> (Ledger, Result<u32, StoreError>) {
    match crate::append::spec_begin(owner, namespace, content) {
        Ok((m, request)) => run_append(ledger, m, AppendOutputView::Ask(request), 3),
        Err(e) => (ledger, Err(e)),
    }
}

/// A listing that is driven to its end by the model ledger: the items it
/// produces, in order, and how it ends.
pub open spec fn run_listing(ledger: Ledger, m: ListerView, next: ListNextView, requests: nat) -> (
    Seq<(u32, Seq<char>)>,
    Result<(), StoreError>,
)
    decreases requests,
{
    match next {
        ListNextView::Done(result) => (Seq::empty(), result),
        ListNextView::Ask(request) => {
            if requests == 0 {
                (Seq::empty(), Err(StoreError::OutOfTurn))
            } else {
                let (ledger, event) = answered(ledger, request);
                let (m, output) = crate::listing::spec_step(m, event);
                let (rest, result) = run_listing(ledger, m, output.next, (requests - 1) as nat);
                match output.item {
                    Some(item) => (seq![item] + rest, result),
                    None => (rest, result),
                }
            }
        },
    }
}

/// The most requests that a listing puts: one for the index record and one
/// for each item that a counter can count.
pub open spec fn listing_requests() -> nat {
    4294967296
}

/// `listAll` on the model ledger: the items it produces, in order, and how
/// it ends.
pub open spec fn spec_list_all(ledger: Ledger, owner: Seq<u8>, namespace: Seq<u8>) -> (
    Seq<(u32, Seq<char>)>,
    Result<(), StoreError>,
) {
    match crate::listing::spec_begin(owner, namespace) {
        Ok((m, request)) => run_listing(ledger, m, ListNextView::Ask(request), listing_requests()),
        Err(e) => (Seq::empty(), Err(e)),
    }
}

/// Texts with their positions as sequence ids.
pub open spec fn numbered(posts: Seq<Seq<char>>) -> Seq<(u32, Seq<char>)> {
    Seq::new(posts.len(), |i: int| (i as u32, posts[i]))
}

/// Whether the ledger holds the item record of `owner` with sequence id
/// `id`, and its text is `text`.
pub open spec fn holds_item(
    ledger: Ledger,
    owner: Seq<u8>,
    namespace: Seq<u8>,
    id: int,
    text: Seq<char>,
) -> bool {
    let location = spec_item_address(owner, namespace, id as nat)->Ok_0;
    ledger.dom().contains(location) && item_decoding(ledger[location].data) == Some(text)
}

/// Whether the ledger holds, for `owner`, exactly the texts `posts`: an
/// index record owned by the namespace that counts them, and each text in
/// the item record of its position.
pub open spec fn stores(
    ledger: Ledger,
    owner: Seq<u8>,
    namespace: Seq<u8>,
    posts: Seq<Seq<char>>,
) -> bool {
    let index = spec_index_address(owner, namespace)->Ok_0;
    &&& spec_index_address(owner, namespace) is Ok
    &&& posts.len() <= u32::MAX
    &&& ledger.dom().contains(index)
    &&& ledger[index].owner == namespace
    &&& index_decoding(ledger[index].data) == Some(posts.len() as u32)
    &&& forall|i: int|
        0 <= i < posts.len() ==> #[trigger] holds_item(ledger, owner, namespace, i, posts[i])
}

/// Whether the owner has no index record yet, though one can be located.
pub open spec fn fresh(ledger: Ledger, owner: Seq<u8>, namespace: Seq<u8>) -> bool {
    spec_index_address(owner, namespace) is Ok && !ledger.dom().contains(
        spec_index_address(owner, namespace)->Ok_0,
    )
}

/// The ledger after the item `content` was appended under sequence id
/// `id`: the counter stands at `id + 1` and the item location holds the
/// encoded item.
pub open spec fn with_item(
    ledger: Ledger,
    owner: Seq<u8>,
    namespace: Seq<u8>,
    id: u32,
    content: Seq<char>,
) -> Ledger {
    ledger.insert(
        spec_index_address(owner, namespace)->Ok_0,
        AccountView { owner: namespace, data: index_encoding((id + 1) as u32) },
    ).insert(
        spec_item_address(owner, namespace, id as nat)->Ok_0,
        AccountView { owner: namespace, data: item_encoding(content) },
    )
}

/// Whether the ledger holds an index record of `owner` that belongs to the
/// namespace and whose counter stands at `count`.
pub open spec fn counts(ledger: Ledger, owner: Seq<u8>, namespace: Seq<u8>, count: u32) -> bool {
    let index = spec_index_address(owner, namespace)->Ok_0;
    &&& spec_index_address(owner, namespace) is Ok
    &&& ledger.dom().contains(index)
    &&& ledger[index].owner == namespace
    &&& index_decoding(ledger[index].data) == Some(count)
}

/// The submission that appends an item is committed exactly when the item
/// location is free and the counter can advance, and then leaves the
/// ledger with the item.
proof fn lemma_item_submission(
    ledger: Ledger,
    owner: Seq<u8>,
    namespace: Seq<u8>,
    id: u32,
    content: Seq<char>,
)
    requires
        counts(ledger, owner, namespace, id),
        frameable(content),
    ensures
        submitted(ledger, append_operations(owner, namespace, id, content)) is Some <==> id
            < u32::MAX && !ledger.dom().contains(
            spec_item_address(owner, namespace, id as nat)->Ok_0,
        ),
        submitted(ledger, append_operations(owner, namespace, id, content)) is Some ==> submitted(
            ledger,
            append_operations(owner, namespace, id, content),
        ) == Some(with_item(ledger, owner, namespace, id, content)),
{
    let operations = append_operations(owner, namespace, id, content);
    let index = spec_index_address(owner, namespace)->Ok_0;
    let item = spec_item_address(owner, namespace, id as nat)->Ok_0;
    let encoded = item_encoding(content);
    lemma_record_locations_exist(owner, namespace, id as nat);
    lemma_item_round_trip(content);
    reveal_with_fuel(submitted, 3);
    assert(operations.drop_first() =~= seq![operations[1]]);
    assert(operations.drop_first().drop_first() =~= Seq::<OperationView>::empty());
    if !ledger.dom().contains(item) {
        let one = allocated(ledger, operations[0]->Allocate_0)->Some_0;
        assert(applied(ledger, operations[0]) == Some(one));
        assert(one[index] == ledger[index]);
        assert(one[item].data.len() == encoded.len());
        if id < u32::MAX {
            let accounts = spec_process(namespace, seq![one[index], one[item]], encoded)->Ok_0;
            assert(overwritten(one[item].data, encoded) =~= encoded);
            assert(accounts[0] == AccountView {
                owner: namespace,
                data: index_encoding((id + 1) as u32),
            });
            assert(accounts[1] == AccountView { owner: namespace, data: encoded });
            let two = invoked(one, operations[1]->Invoke_0)->Some_0;
            assert(two =~= with_item(ledger, owner, namespace, id, content));
        }
    }
}

/// An append that knows the counter ends with the item stored under the
/// counter's value, or changes nothing.
proof fn lemma_run_submit_item(ledger: Ledger, m: AppenderView, id: u32)
    requires
        counts(ledger, m.owner, m.namespace, id),
    ensures
        ({
            let (n, output) = crate::append::spec_submit_item(m, id);
            let end = run_append(ledger, n, output, 2);
            let item = spec_item_address(m.owner, m.namespace, id as nat)->Ok_0;
            if !frameable(m.content) {
                end == (ledger, Err::<u32, StoreError>(StoreError::TooLong))
            } else if id < u32::MAX && !ledger.dom().contains(item) {
                end == (
                    with_item(ledger, m.owner, m.namespace, id, m.content),
                    Ok::<u32, StoreError>(id),
                )
            } else {
                end == (ledger, Err::<u32, StoreError>(StoreError::SubmitRejected))
            }
        }),
{
    reveal_with_fuel(run_append, 3);
    if frameable(m.content) {
        lemma_item_submission(ledger, m.owner, m.namespace, id, m.content);
    }
}

/// What `append` does on the model ledger, case by case.
pub proof fn lemma_append_outcome(
    ledger: Ledger,
    owner: Seq<u8>,
    namespace: Seq<u8>,
    content: Seq<char>,
)
    ensures
        ({
            let end = spec_append(ledger, owner, namespace, content);
            let index = spec_index_address(owner, namespace)->Ok_0;
            let provisioned = ledger.insert(
                index,
                AccountView { owner: namespace, data: zeroed(4) },
            );
            if is_reserved(namespace) {
                end == (ledger, Err::<u32, StoreError>(StoreError::IllegalNamespace))
            } else if !ledger.dom().contains(index) {
                let item = spec_item_address(owner, namespace, 0)->Ok_0;
                if !frameable(content) {
                    end == (provisioned, Err::<u32, StoreError>(StoreError::TooLong))
                } else if item != index && !ledger.dom().contains(item) {
                    end == (
                        with_item(provisioned, owner, namespace, 0, content),
                        Ok::<u32, StoreError>(0),
                    )
                } else {
                    end == (provisioned, Err::<u32, StoreError>(StoreError::SubmitRejected))
                }
            } else {
                match index_decoding(ledger[index].data) {
                    None => end == (ledger, Err::<u32, StoreError>(StoreError::CorruptIndex)),
                    Some(id) => {
                        let item = spec_item_address(owner, namespace, id as nat)->Ok_0;
                        if !frameable(content) {
                            end == (ledger, Err::<u32, StoreError>(StoreError::TooLong))
                        } else if ledger[index].owner == namespace && id < u32::MAX
                            && !ledger.dom().contains(item) {
                            end == (
                                with_item(ledger, owner, namespace, id, content),
                                Ok::<u32, StoreError>(id),
                            )
                        } else {
                            end == (ledger, Err::<u32, StoreError>(StoreError::SubmitRejected))
                        }
                    },
                }
            }
        }),
{
    lemma_record_locations_exist(owner, namespace, 0);
    reveal_with_fuel(run_append, 4);
    reveal_with_fuel(submitted, 3);
    if !is_reserved(namespace) {
        let index = spec_index_address(owner, namespace)->Ok_0;
        let (m, request) = crate::append::spec_begin(owner, namespace, content)->Ok_0;
        if !ledger.dom().contains(index) {
            let operations = provision_operations(owner, namespace);
            assert(operations.drop_first() =~= Seq::<OperationView>::empty());
            crate::seed::lemma_index_seed_fits();
            let provisioned = ledger.insert(
                index,
                AccountView { owner: namespace, data: zeroed(4) },
            );
            assert(submitted(ledger, operations) == Some(provisioned));
            assert(index_decoding(zeroed(4)) == Some(0u32));
            let waiting = crate::append::in_phase(m, AppendPhase::AwaitProvision);
            lemma_run_submit_item(provisioned, waiting, 0);
        } else {
            match index_decoding(ledger[index].data) {
                None => {},
                Some(id) => {
                    if ledger[index].owner == namespace {
                        lemma_run_submit_item(ledger, m, id);
                    } else if frameable(content) {
                        lemma_record_locations_exist(owner, namespace, id as nat);
                        lemma_item_round_trip(content);
                        let operations = append_operations(owner, namespace, id, content);
                        assert(operations.drop_first() =~= seq![operations[1]]);
                        let item = spec_item_address(owner, namespace, id as nat)->Ok_0;
                        if !ledger.dom().contains(item) {
                            let one = allocated(ledger, operations[0]->Allocate_0)->Some_0;
                            assert(applied(ledger, operations[0]) == Some(one));
                            assert(one[index] == ledger[index]);
                            assert(invoked(one, operations[1]->Invoke_0) is None);
                        }
                    }
                },
            }
        }
    }
}

} // verus!
