//! What a client asks of the ledger and what the ledger answers, with a
//! model of the ledger as a map from locations to accounts.

use crate::address::{spec_derive, Address, DeriveError};
use crate::program::{spec_process, AccountView};
use vstd::prelude::*;

verus! {

/// A request to allocate storage at a derived location.
#[derive(Debug)]
pub struct Allocation {
    /// Where the storage is allocated.
    pub location: Address,
    /// The owner identity from which the location was derived. It pays.
    pub base: Address,
    /// The seed from which the location was derived.
    pub seed: String,
    /// Number of bytes to allocate.
    pub space: u64,
    /// The namespace identity that will own the storage.
    pub namespace: Address,
}

/// An allocation as a value.
pub struct AllocationView {
    pub location: Seq<u8>,
    pub base: Seq<u8>,
    pub seed: Seq<char>,
    pub space: nat,
    pub namespace: Seq<u8>,
}

impl View for Allocation {
    type V = AllocationView;

    open spec fn view(&self) -> AllocationView {
        AllocationView {
            location: self.location@,
            base: self.base@,
            seed: self.seed@,
            space: self.space as nat,
            namespace: self.namespace@,
        }
    }
}

/// A call of the program on an index account and an item account, both
/// writable, neither a signer.
#[derive(Debug)]
pub struct Instruction {
    /// The namespace identity of the program.
    pub program: Address,
    /// Location of the index record.
    pub index: Address,
    /// Location of the item record.
    pub item: Address,
    /// The encoded item record.
    pub data: Vec<u8>,
}

/// An instruction as a value.
pub struct InstructionView {
    pub program: Seq<u8>,
    pub index: Seq<u8>,
    pub item: Seq<u8>,
    pub data: Seq<u8>,
}

impl View for Instruction {
    type V = InstructionView;

    open spec fn view(&self) -> InstructionView {
        InstructionView {
            program: self.program@,
            index: self.index@,
            item: self.item@,
            data: self.data@,
        }
    }
}

/// One operation of a submission.
#[derive(Debug)]
pub enum Operation {
    Allocate(Allocation),
    Invoke(Instruction),
}

/// An operation as a value.
pub enum OperationView {
    Allocate(AllocationView),
    Invoke(InstructionView),
}

impl View for Operation {
    type V = OperationView;

    open spec fn view(&self) -> OperationView {
        match self {
            Operation::Allocate(a) => OperationView::Allocate(a@),
            Operation::Invoke(i) => OperationView::Invoke(i@),
        }
    }
}

/// What a client asks of the ledger.
#[derive(Debug)]
pub enum Request {
    /// Read the account at a location.
    Read(Address),
    /// Submit operations, in order, as one atomic unit signed by the owner.
    Submit(Vec<Operation>),
}

/// A request as a value.
pub enum RequestView {
    Read(Seq<u8>),
    Submit(Seq<OperationView>),
}

/// The operations of a list, as values.
pub open spec fn operation_views(operations: Seq<Operation>) -> Seq<OperationView> {
    Seq::new(operations.len(), |i: int| operations[i]@)
}

impl View for Request {
    type V = RequestView;

    open spec fn view(&self) -> RequestView {
        match self {
            Request::Read(a) => RequestView::Read(a@),
            Request::Submit(operations) => RequestView::Submit(operation_views(operations@)),
        }
    }
}

/// What the ledger answers.
#[derive(Debug)]
pub enum Event {
    /// The account that was read holds these bytes.
    Found(Vec<u8>),
    /// There is no account at the location that was read.
    Absent,
    /// The submission was committed.
    Confirmed,
    /// The submission was refused, and nothing changed.
    Rejected,
}

/// An event as a value.
pub enum EventView {
    Found(Seq<u8>),
    Absent,
    Confirmed,
    Rejected,
}

impl View for Event {
    type V = EventView;

    open spec fn view(&self) -> EventView {
        match self {
            Event::Found(data) => EventView::Found(data@),
            Event::Absent => EventView::Absent,
            Event::Confirmed => EventView::Confirmed,
            Event::Rejected => EventView::Rejected,
        }
    }
}

/// The model of a ledger: the accounts that exist, by location.
pub type Ledger = Map<Seq<u8>, AccountView>;

/// Freshly allocated storage: `n` zero bytes.
pub open spec fn zeroed(n: nat) -> Seq<u8> {
    Seq::new(n, |i: int| 0u8)
}

/// The ledger after an allocation. The ledger refuses a location that does
/// not derive from the base, seed and namespace given, and one that is
/// already allocated.
pub open spec fn allocated(ledger: Ledger, a: AllocationView) -> Option<Ledger> {
    if spec_derive(a.base, a.seed, a.namespace) != Ok::<Seq<u8>, DeriveError>(a.location) {
        None
    } else if ledger.dom().contains(a.location) {
        None
    } else {
        Some(ledger.insert(a.location, AccountView { owner: a.namespace, data: zeroed(a.space) }))
    }
}

/// The ledger after the program has handled an instruction. The ledger
/// refuses an instruction on an account that does not exist, and one that
/// the program refuses.
pub open spec fn invoked(ledger: Ledger, i: InstructionView) -> Option<Ledger> {
    if !ledger.dom().contains(i.index) || !ledger.dom().contains(i.item) {
        None
    } else {
        match spec_process(i.program, seq![ledger[i.index], ledger[i.item]], i.data) {
            Err(_) => None,
            Ok(accounts) => Some(ledger.insert(i.index, accounts[0]).insert(i.item, accounts[1])),
        }
    }
}

/// The ledger after one operation, unless the ledger refuses it.
pub open spec fn applied(ledger: Ledger, operation: OperationView) -> Option<Ledger> {
    match operation {
        OperationView::Allocate(a) => allocated(ledger, a),
        OperationView::Invoke(i) => invoked(ledger, i),
    }
}

/// The ledger after a submission: every operation in order, or none.
pub open spec fn submitted(ledger: Ledger, operations: Seq<OperationView>) -> Option<Ledger>
    decreases operations.len(),
{
    if operations.len() == 0 {
        Some(ledger)
    } else {
        match applied(ledger, operations[0]) {
            None => None,
            Some(next) => submitted(next, operations.drop_first()),
        }
    }
}

/// How the ledger answers a request, and the ledger after it.
pub open spec fn answered(ledger: Ledger, request: RequestView) -> (Ledger, EventView) {
    match request {
        RequestView::Read(location) => {
            if ledger.dom().contains(location) {
                (ledger, EventView::Found(ledger[location].data))
            } else {
                (ledger, EventView::Absent)
            }
        },
        RequestView::Submit(operations) => {
            match submitted(ledger, operations) {
                Some(next) => (next, EventView::Confirmed),
                None => (ledger, EventView::Rejected),
            }
        },
    }
}

} // verus!
