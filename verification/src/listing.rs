//! Listing all items of an owner: the decisions of the client, one ledger
//! answer at a time.
//!
//! The client reads the index record, then the item records from sequence
//! id zero up to the counter, in order. The first item that is absent or
//! does not decode ends the listing.

use crate::address::{
    index_address, item_address, lemma_record_locations_exist, spec_index_address,
    spec_item_address, Address, DeriveError,
};
use crate::error::StoreError;
use crate::ledger::{Event, EventView, Request, RequestView};
use crate::record::{index_decoding, item_decoding, PostlyAccount, PostlyAccountIndex};
use vstd::prelude::*;

verus! {

/// Where a listing stands.
#[derive(Clone, Copy, Debug, PartialEq, Eq, Structural)]
pub enum ListPhase {
    /// The index record was asked for.
    AwaitIndex,
    /// The item with sequence id `id` was asked for; the counter is `count`.
    AwaitItem { id: u32, count: u32 },
    /// The listing has ended.
    Finished,
}

/// A listing in progress.
#[derive(Debug)]
pub struct Lister {
    owner: Address,
    namespace: Address,
    index: Address,
    phase: ListPhase,
}

/// A listing in progress, as a value.
pub struct ListerView {
    pub owner: Seq<u8>,
    pub namespace: Seq<u8>,
    pub phase: ListPhase,
}

/// What a listing does next.
#[derive(Debug)]
pub enum ListNext {
    /// Put this request to the ledger and hand its answer to `step`.
    Ask(Request),
    /// The listing has ended: every item was produced, or it broke off for
    /// the reason given.
    Done(Result<(), StoreError>),
}

/// A next step as a value.
pub enum ListNextView {
    Ask(RequestView),
    Done(Result<(), StoreError>),
}

impl View for ListNext {
    type V = ListNextView;

    open spec fn view(&self) -> ListNextView {
        match self {
            ListNext::Ask(request) => ListNextView::Ask(request@),
            ListNext::Done(result) => ListNextView::Done(*result),
        }
    }
}

/// What one step of a listing gives: an item, if the answer was one, and
/// what to do next.
#[derive(Debug)]
pub struct ListOutput {
    /// The item that was read, with its sequence id.
    pub item: Option<(u32, String)>,
    /// What the listing does next.
    pub next: ListNext,
}

/// An output as a value.
pub struct ListOutputView {
    pub item: Option<(u32, Seq<char>)>,
    pub next: ListNextView,
}

impl View for ListOutput {
    type V = ListOutputView;

    open spec fn view(&self) -> ListOutputView {
        ListOutputView {
            item: match self.item {
                Some((id, text)) => Some((id, text@)),
                None => None,
            },
            next: self.next@,
        }
    }
}

/// The listing `m` in another phase.
pub open spec fn in_phase(m: ListerView, phase: ListPhase) -> ListerView {
    ListerView { owner: m.owner, namespace: m.namespace, phase }
}

/// A listing that breaks off for the reason `e`.
pub open spec fn broken_off(m: ListerView, e: StoreError) -> (ListerView, ListOutputView) {
    (
        in_phase(m, ListPhase::Finished),
        ListOutputView { item: None, next: ListNextView::Done(Err(e)) },
    )
}

/// How a listing goes on once the items below `id` are produced and the
/// counter is `count`: with the read of item `id`, or with its end when
/// there is no such item.
pub open spec fn spec_seek(m: ListerView, id: nat, count: u32) -> (ListerView, ListNextView) {
    if id < count {
        (
            in_phase(m, ListPhase::AwaitItem { id: id as u32, count }),
            ListNextView::Ask(
                RequestView::Read(spec_item_address(m.owner, m.namespace, id)->Ok_0),
            ),
        )
    } else {
        (in_phase(m, ListPhase::Finished), ListNextView::Done(Ok(())))
    }
}

/// How a listing begins: with the read of the index location, unless no
/// location can be derived in the namespace.
pub open spec fn spec_begin(owner: Seq<u8>, namespace: Seq<u8>) -> Result<
    (ListerView, RequestView),
    StoreError,
> {
    match spec_index_address(owner, namespace) {
        Ok(index) => Ok(
            (
                ListerView { owner, namespace, phase: ListPhase::AwaitIndex },
                RequestView::Read(index),
            ),
        ),
        Err(_) => Err(StoreError::IllegalNamespace),
    }
}

/// What a listing does with an answer of the ledger.
pub open spec fn spec_step(m: ListerView, event: EventView) -> (ListerView, ListOutputView) {
    match m.phase {
        ListPhase::AwaitIndex => match event {
            EventView::Found(data) => match index_decoding(data) {
                Some(count) => (
                    spec_seek(m, 0, count).0,
                    ListOutputView { item: None, next: spec_seek(m, 0, count).1 },
                ),
                None => broken_off(m, StoreError::CorruptIndex),
            },
            EventView::Absent => broken_off(m, StoreError::NotFound),
            _ => broken_off(m, StoreError::OutOfTurn),
        },
        ListPhase::AwaitItem { id, count } => match event {
            EventView::Found(data) => match item_decoding(data) {
                Some(text) => (
                    spec_seek(m, (id + 1) as nat, count).0,
                    ListOutputView {
                        item: Some((id, text)),
                        next: spec_seek(m, (id + 1) as nat, count).1,
                    },
                ),
                None => broken_off(m, StoreError::MissingItem(id)),
            },
            EventView::Absent => broken_off(m, StoreError::MissingItem(id)),
            _ => broken_off(m, StoreError::OutOfTurn),
        },
        ListPhase::Finished => broken_off(m, StoreError::OutOfTurn),
    }
}

impl View for Lister {
    type V = ListerView;

    closed spec fn view(&self) -> ListerView {
        ListerView { owner: self.owner@, namespace: self.namespace@, phase: self.phase }
    }
}

impl Lister {
    #[verifier::type_invariant]
    spec fn well_formed(&self) -> bool {
        &&& spec_index_address(self.owner@, self.namespace@) == Ok::<Seq<u8>, DeriveError>(
            self.index@,
        )
        &&& self.phase matches ListPhase::AwaitItem { id, count } ==> id < count
    }

    /// Begins the listing of the items of `owner` in `namespace`.
    pub fn begin(owner: Address, namespace: Address) -> (r: Result<(Lister, Request), StoreError>)
        ensures
            match r {
                Ok((m, request)) => spec_begin(owner@, namespace@) == Ok::<
                    (ListerView, RequestView),
                    StoreError,
                >((m@, request@)),
                Err(e) => spec_begin(owner@, namespace@) == Err::<
                    (ListerView, RequestView),
                    StoreError,
                >(e),
            },
    {
        match index_address(&owner, &namespace) {
            Ok(index) => {
                let m = Lister { owner, namespace, index, phase: ListPhase::AwaitIndex };
                Ok((m, Request::Read(index)))
            },
            Err(_) => Err(StoreError::IllegalNamespace),
        }
    }

    /// Where this listing stands.
    pub fn phase(&self) -> (phase: ListPhase)
        ensures
            phase == self@.phase,
    {
        self.phase
    }

    /// The owner identity whose items are listed.
    pub fn owner(&self) -> (owner: Address)
        ensures
            owner@ == self@.owner,
    {
        self.owner
    }

    /// The namespace identity in which the items are listed.
    pub fn namespace(&self) -> (namespace: Address)
        ensures
            namespace@ == self@.namespace,
    {
        self.namespace
    }

    fn break_off(self, e: StoreError) -> (r: (Lister, ListOutput))
        ensures
            r.0@ == broken_off(self@, e).0,
            r.1@ == broken_off(self@, e).1,
    {
        proof {
            use_type_invariant(&self);
        }
        let m = Lister {
            owner: self.owner,
            namespace: self.namespace,
            index: self.index,
            phase: ListPhase::Finished,
        };
        (m, ListOutput { item: None, next: ListNext::Done(Err(e)) })
    }

    fn seek(self, id: u64, count: u32) -> (r: (Lister, ListNext))
        ensures
            r.0@ == spec_seek(self@, id as nat, count).0,
            r.1@ == spec_seek(self@, id as nat, count).1,
    {
        proof {
            use_type_invariant(&self);
            if id < count {
                lemma_record_locations_exist(self.owner@, self.namespace@, id as nat);
            }
        }
        if id < count as u64 {
            let id = id as u32;
            let item = match item_address(&self.owner, &self.namespace, id) {
                Ok(item) => item,
                Err(_) => vstd::pervasive::unreached(),
            };
            let m = Lister {
                owner: self.owner,
                namespace: self.namespace,
                index: self.index,
                phase: ListPhase::AwaitItem { id, count },
            };
            (m, ListNext::Ask(Request::Read(item)))
        } else {
            let m = Lister {
                owner: self.owner,
                namespace: self.namespace,
                index: self.index,
                phase: ListPhase::Finished,
            };
            (m, ListNext::Done(Ok(())))
        }
    }

    /// Takes the ledger's answer to the pending request, gives the item if
    /// the answer was one, and says what to do next.
    pub fn step(self, event: Event) -> (r: (Lister, ListOutput))
        ensures
            r.0@ == spec_step(self@, event@).0,
            r.1@ == spec_step(self@, event@).1,
    {
        proof {
            use_type_invariant(&self);
        }
        match self.phase {
            ListPhase::AwaitIndex => match event {
                Event::Found(data) => match PostlyAccountIndex::try_from_slice(data.as_slice()) {
                    Ok(index) => {
                        let (m, next) = self.seek(0, index.post_n);
                        (m, ListOutput { item: None, next })
                    },
                    Err(_) => self.break_off(StoreError::CorruptIndex),
                },
                Event::Absent => self.break_off(StoreError::NotFound),
                _ => self.break_off(StoreError::OutOfTurn),
            },
            ListPhase::AwaitItem { id, count } => match event {
                Event::Found(data) => match PostlyAccount::try_from_slice(data.as_slice()) {
                    Ok(record) => {
                        let (m, next) = self.seek(id as u64 + 1, count);
                        (m, ListOutput { item: Some((id, record.post)), next })
                    },
                    Err(_) => self.break_off(StoreError::MissingItem(id)),
                },
                Event::Absent => self.break_off(StoreError::MissingItem(id)),
                _ => self.break_off(StoreError::OutOfTurn),
            },
            ListPhase::Finished => self.break_off(StoreError::OutOfTurn),
        }
    }
}

} // verus!
