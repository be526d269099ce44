//! Appending one item: the decisions of the client, one ledger answer at a
//! time.
//!
//! The client reads the index record. If there is none, it has one
//! allocated with the counter at zero. It then submits, as one unit, the
//! allocation of the next item location and the instruction that advances
//! the counter and stores the item.

use crate::address::{
    index_address, item_address, lemma_record_locations_exist, spec_index_address,
    spec_item_address, Address, DeriveError,
};
use crate::error::StoreError;
use crate::ledger::{
    operation_views, Allocation, AllocationView, Event, EventView, Instruction, InstructionView,
    Operation, OperationView, Request, RequestView,
};
use crate::record::{
    frameable, index_decoding, item_encoding, PostlyAccount, PostlyAccountIndex, WORD_BYTES,
};
use crate::seed::{index_account_seed, index_seed, item_account_seed, item_seed};
use vstd::prelude::*;

verus! {

/// Where an append stands.
#[derive(Clone, Copy, Debug, PartialEq, Eq, Structural)]
pub enum AppendPhase {
    /// The index record was asked for.
    AwaitIndex,
    /// The allocation of the index record was submitted.
    AwaitProvision,
    /// The item with this sequence id was submitted.
    AwaitAppend(u32),
    /// The append has ended.
    Finished,
}

/// An append in progress.
#[derive(Debug)]
pub struct Appender {
    owner: Address,
    namespace: Address,
    content: String,
    index: Address,
    phase: AppendPhase,
}

/// An append in progress, as a value.
pub struct AppenderView {
    pub owner: Seq<u8>,
    pub namespace: Seq<u8>,
    pub content: Seq<char>,
    pub phase: AppendPhase,
}

/// What an append does next.
#[derive(Debug)]
pub enum AppendOutput {
    /// Put this request to the ledger and hand its answer to `step`.
    Ask(Request),
    /// The append has ended, with the sequence id of the new item or with
    /// the reason for which there is none.
    Done(Result<u32, StoreError>),
}

/// An output as a value.
pub enum AppendOutputView {
    Ask(RequestView),
    Done(Result<u32, StoreError>),
}

impl View for AppendOutput {
    type V = AppendOutputView;

    open spec fn view(&self) -> AppendOutputView {
        match self {
            AppendOutput::Ask(request) => AppendOutputView::Ask(request@),
            AppendOutput::Done(result) => AppendOutputView::Done(*result),
        }
    }
}

/// The submission that provisions the index record: the allocation of the
/// index location with room for one index record.
pub open spec fn provision_operations(owner: Seq<u8>, namespace: Seq<u8>) -> Seq<OperationView>
    recommends
        spec_index_address(owner, namespace) is Ok,
{
    seq![
        OperationView::Allocate(
            AllocationView {
                location: spec_index_address(owner, namespace)->Ok_0,
                base: owner,
                seed: index_seed(),
                space: WORD_BYTES as nat,
                namespace,
            },
        ),
    ]
}

/// The submission that appends `content` with sequence id `id`: the
/// allocation of the item location with room for the encoded item, then
/// the instruction that carries the encoded item.
pub open spec fn append_operations(
    owner: Seq<u8>,
    namespace: Seq<u8>,
    id: u32,
    content: Seq<char>,
) -> Seq<OperationView>
    recommends
        spec_index_address(owner, namespace) is Ok,
        frameable(content),
{
    seq![
        OperationView::Allocate(
            AllocationView {
                location: spec_item_address(owner, namespace, id as nat)->Ok_0,
                base: owner,
                seed: item_seed(id as nat),
                space: item_encoding(content).len(),
                namespace,
            },
        ),
        OperationView::Invoke(
            InstructionView {
                program: namespace,
                index: spec_index_address(owner, namespace)->Ok_0,
                item: spec_item_address(owner, namespace, id as nat)->Ok_0,
                data: item_encoding(content),
            },
        ),
    ]
}

/// The append `m` in another phase.
pub open spec fn in_phase(m: AppenderView, phase: AppendPhase) -> AppenderView {
    AppenderView { owner: m.owner, namespace: m.namespace, content: m.content, phase }
}

/// An append that ends with `result`.
pub open spec fn ended(m: AppenderView, result: Result<u32, StoreError>) -> (
    AppenderView,
    AppendOutputView,
) {
    (in_phase(m, AppendPhase::Finished), AppendOutputView::Done(result))
}

/// How an append begins: with the read of the index location, unless no
/// location can be derived in the namespace.
pub open spec fn spec_begin(owner: Seq<u8>, namespace: Seq<u8>, content: Seq<char>) -> Result<
    (AppenderView, RequestView),
    StoreError,
> {
    match spec_index_address(owner, namespace) {
        Ok(index) => Ok(
            (
                AppenderView { owner, namespace, content, phase: AppendPhase::AwaitIndex },
                RequestView::Read(index),
            ),
        ),
        Err(_) => Err(StoreError::IllegalNamespace),
    }
}

/// What an append does once it knows that the counter stands at `id`: it
/// submits the item under that sequence id, unless the text cannot be
/// framed.
pub open spec fn spec_submit_item(m: AppenderView, id: u32) -> (AppenderView, AppendOutputView) {
    if frameable(m.content) {
        (
            in_phase(m, AppendPhase::AwaitAppend(id)),
            AppendOutputView::Ask(
                RequestView::Submit(append_operations(m.owner, m.namespace, id, m.content)),
            ),
        )
    } else {
        ended(m, Err(StoreError::TooLong))
    }
}

/// What an append does with an answer of the ledger.
pub open spec fn spec_step(m: AppenderView, event: EventView) -> (AppenderView, AppendOutputView) {
    match m.phase {
        AppendPhase::AwaitIndex => match event {
            EventView::Found(data) => match index_decoding(data) {
                Some(count) => spec_submit_item(m, count),
                None => ended(m, Err(StoreError::CorruptIndex)),
            },
            EventView::Absent => (
                in_phase(m, AppendPhase::AwaitProvision),
                AppendOutputView::Ask(
                    RequestView::Submit(provision_operations(m.owner, m.namespace)),
                ),
            ),
            _ => ended(m, Err(StoreError::OutOfTurn)),
        },
        AppendPhase::AwaitProvision => match event {
            EventView::Confirmed => spec_submit_item(m, 0),
            EventView::Rejected => ended(m, Err(StoreError::ProvisionRejected)),
            _ => ended(m, Err(StoreError::OutOfTurn)),
        },
        AppendPhase::AwaitAppend(id) => match event {
            EventView::Confirmed => ended(m, Ok(id)),
            EventView::Rejected => ended(m, Err(StoreError::SubmitRejected)),
            _ => ended(m, Err(StoreError::OutOfTurn)),
        },
        AppendPhase::Finished => ended(m, Err(StoreError::OutOfTurn)),
    }
}

impl View for Appender {
    type V = AppenderView;

    closed spec fn view(&self) -> AppenderView {
        AppenderView {
            owner: self.owner@,
            namespace: self.namespace@,
            content: self.content@,
            phase: self.phase,
        }
    }
}

impl Appender {
    #[verifier::type_invariant]
    spec fn well_formed(&self) -> bool {
        spec_index_address(self.owner@, self.namespace@) == Ok::<Seq<u8>, DeriveError>(self.index@)
    }

    /// Begins the append of `content` for `owner` in `namespace`.
    pub fn begin(owner: Address, namespace: Address, content: String) -> (r: Result<
        (Appender, Request),
        StoreError,
    >)
        ensures
            match r {
                Ok((m, request)) => spec_begin(owner@, namespace@, content@) == Ok::<
                    (AppenderView, RequestView),
                    StoreError,
                >((m@, request@)),
                Err(e) => spec_begin(owner@, namespace@, content@) == Err::<
                    (AppenderView, RequestView),
                    StoreError,
                >(e),
            },
    {
        match index_address(&owner, &namespace) {
            Ok(index) => {
                let phase = AppendPhase::AwaitIndex;
                let m = Appender { owner, namespace, content, index, phase };
                Ok((m, Request::Read(index)))
            },
            Err(_) => Err(StoreError::IllegalNamespace),
        }
    }

    /// Where this append stands.
    pub fn phase(&self) -> (phase: AppendPhase)
        ensures
            phase == self@.phase,
    {
        self.phase
    }

    /// The owner identity for which this append was begun.
    pub fn owner(&self) -> (owner: Address)
        ensures
            owner@ == self@.owner,
    {
        self.owner
    }

    /// The namespace identity in which this append was begun.
    pub fn namespace(&self) -> (namespace: Address)
        ensures
            namespace@ == self@.namespace,
    {
        self.namespace
    }

    /// The text that this append stores.
    pub fn content(&self) -> (content: &str)
        ensures
            content@ == self@.content,
    {
        self.content.as_str()
    }

    fn finish(self, result: Result<u32, StoreError>) -> (r: (Appender, AppendOutput))
        ensures
            r.0@ == ended(self@, result).0,
            r.1@ == ended(self@, result).1,
    {
        proof {
            use_type_invariant(&self);
        }
        let m = Appender {
            owner: self.owner,
            namespace: self.namespace,
            content: self.content,
            index: self.index,
            phase: AppendPhase::Finished,
        };
        (m, AppendOutput::Done(result))
    }

    fn provision(self) -> (r: (Appender, AppendOutput))
        ensures
            r.0@ == in_phase(self@, AppendPhase::AwaitProvision),
            r.1@ == AppendOutputView::Ask(
                RequestView::Submit(provision_operations(self@.owner, self@.namespace)),
            ),
    {
        proof {
            use_type_invariant(&self);
        }
        let allocation = Allocation {
            location: self.index,
            base: self.owner,
            seed: index_account_seed(),
            space: WORD_BYTES as u64,
            namespace: self.namespace,
        };
        let mut operations: Vec<Operation> = Vec::new();
        operations.push(Operation::Allocate(allocation));
        assert(operation_views(operations@) =~= provision_operations(
            self@.owner,
            self@.namespace,
        ));
        let m = Appender {
            owner: self.owner,
            namespace: self.namespace,
            content: self.content,
            index: self.index,
            phase: AppendPhase::AwaitProvision,
        };
        (m, AppendOutput::Ask(Request::Submit(operations)))
    }

    fn submit_item(self, id: u32) -> (r: (Appender, AppendOutput))
        ensures
            r.0@ == spec_submit_item(self@, id).0,
            r.1@ == spec_submit_item(self@, id).1,
    {
        proof {
            use_type_invariant(&self);
            lemma_record_locations_exist(self.owner@, self.namespace@, id as nat);
        }
        let record = PostlyAccount { post: self.content };
        let data = match record.to_bytes() {
            Ok(data) => data,
            Err(_) => {
                let m = Appender {
                    owner: self.owner,
                    namespace: self.namespace,
                    content: record.post,
                    index: self.index,
                    phase: AppendPhase::Finished,
                };
                return (m, AppendOutput::Done(Err(StoreError::TooLong)));
            },
        };
        let item = match item_address(&self.owner, &self.namespace, id) {
            Ok(item) => item,
            Err(_) => vstd::pervasive::unreached(),
        };
        let allocation = Allocation {
            location: item,
            base: self.owner,
            seed: item_account_seed(id),
            space: data.len() as u64,
            namespace: self.namespace,
        };
        let instruction = Instruction { program: self.namespace, index: self.index, item, data };
        let mut operations: Vec<Operation> = Vec::new();
        operations.push(Operation::Allocate(allocation));
        operations.push(Operation::Invoke(instruction));
        assert(operation_views(operations@) =~= append_operations(
            self@.owner,
            self@.namespace,
            id,
            self@.content,
        ));
        let m = Appender {
            owner: self.owner,
            namespace: self.namespace,
            content: record.post,
            index: self.index,
            phase: AppendPhase::AwaitAppend(id),
        };
        (m, AppendOutput::Ask(Request::Submit(operations)))
    }

    /// Takes the ledger's answer to the pending request and says what to
    /// do next.
    pub fn step(self, event: Event) -> (r: (Appender, AppendOutput))
        ensures
            r.0@ == spec_step(self@, event@).0,
            r.1@ == spec_step(self@, event@).1,
    {
        match self.phase {
            AppendPhase::AwaitIndex => match event {
                Event::Found(data) => match PostlyAccountIndex::try_from_slice(data.as_slice()) {
                    Ok(index) => self.submit_item(index.post_n),
                    Err(_) => self.finish(Err(StoreError::CorruptIndex)),
                },
                Event::Absent => self.provision(),
                _ => self.finish(Err(StoreError::OutOfTurn)),
            },
            AppendPhase::AwaitProvision => match event {
                Event::Confirmed => self.submit_item(0),
                Event::Rejected => self.finish(Err(StoreError::ProvisionRejected)),
                _ => self.finish(Err(StoreError::OutOfTurn)),
            },
            AppendPhase::AwaitAppend(id) => match event {
                Event::Confirmed => self.finish(Ok(id)),
                Event::Rejected => self.finish(Err(StoreError::SubmitRejected)),
                _ => self.finish(Err(StoreError::OutOfTurn)),
            },
            AppendPhase::Finished => self.finish(Err(StoreError::OutOfTurn)),
        }
    }
}

} // verus!
