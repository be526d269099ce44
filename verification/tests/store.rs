use postly::address::{index_address, item_address, Address};
use postly::append::{AppendOutput, AppendPhase, Appender};
use postly::error::StoreError;
use postly::ledger::{Event, Operation, Request};
use postly::listing::{ListNext, ListPhase, Lister};
use postly::program::{process_instruction, Account};
use std::collections::HashMap;

/// A ledger in memory: accounts by location.
struct Ledger {
    accounts: HashMap<[u8; 32], Account>,
}

impl Ledger {
    fn new() -> Ledger {
        Ledger { accounts: HashMap::new() }
    }

    fn data(&self, location: &Address) -> Option<Vec<u8>> {
        self.accounts.get(&location.bytes).map(|a| a.data.clone())
    }

    fn put(&mut self, location: &Address, owner: Address, data: Vec<u8>) {
        self.accounts.insert(location.bytes, Account { owner, data });
    }

    fn apply(accounts: &mut HashMap<[u8; 32], Account>, operation: &Operation) -> bool {
        match operation {
            Operation::Allocate(a) => {
                if accounts.contains_key(&a.location.bytes) {
                    return false;
                }
                let data = vec![0; a.space as usize];
                accounts.insert(a.location.bytes, Account { owner: a.namespace, data });
                true
            }
            Operation::Invoke(i) => {
                let (Some(index), Some(item)) =
                    (accounts.remove(&i.index.bytes), accounts.remove(&i.item.bytes))
                else {
                    return false;
                };
                let mut passed = vec![index, item];
                if process_instruction(&i.program, &mut passed, &i.data).is_err() {
                    return false;
                }
                let item = passed.pop().unwrap();
                let index = passed.pop().unwrap();
                accounts.insert(i.index.bytes, index);
                accounts.insert(i.item.bytes, item);
                true
            }
        }
    }

    fn answer(&mut self, request: &Request) -> Event {
        match request {
            Request::Read(location) => match self.data(location) {
                Some(data) => Event::Found(data),
                None => Event::Absent,
            },
            Request::Submit(operations) => {
                let mut accounts: HashMap<[u8; 32], Account> = HashMap::new();
                for (location, a) in &self.accounts {
                    accounts.insert(*location, Account { owner: a.owner, data: a.data.clone() });
                }
                for operation in operations {
                    if !Ledger::apply(&mut accounts, operation) {
                        return Event::Rejected;
                    }
                }
                self.accounts = accounts;
                Event::Confirmed
            }
        }
    }
}

fn owner() -> Address {
    Address::new([1; 32])
}

fn namespace() -> Address {
    Address::new([2; 32])
}

fn reserved_namespace() -> Address {
    let mut bytes = [0u8; 32];
    bytes[11..].copy_from_slice(b"ProgramDerivedAddress");
    Address::new(bytes)
}

fn append(ledger: &mut Ledger, owner: Address, content: &str) -> Result<u32, StoreError> {
    let (mut m, request) = Appender::begin(owner, namespace(), String::from(content))?;
    let mut output = AppendOutput::Ask(request);
    loop {
        match output {
            AppendOutput::Done(result) => {
                assert_eq!(m.phase(), AppendPhase::Finished);
                return result;
            }
            AppendOutput::Ask(request) => {
                let event = ledger.answer(&request);
                (m, output) = m.step(event);
            }
        }
    }
}

fn list_all(ledger: &mut Ledger, owner: Address) -> (Vec<(u32, String)>, Result<(), StoreError>) {
    let mut items = Vec::new();
    let (mut m, request) = match Lister::begin(owner, namespace()) {
        Ok(begun) => begun,
        Err(e) => return (items, Err(e)),
    };
    let mut next = ListNext::Ask(request);
    loop {
        match next {
            ListNext::Done(result) => {
                assert_eq!(m.phase(), ListPhase::Finished);
                return (items, result);
            }
            ListNext::Ask(request) => {
                let event = ledger.answer(&request);
                let (stepped, output) = m.step(event);
                m = stepped;
                items.extend(output.item);
                next = output.next;
            }
        }
    }
}

fn texts(items: &[(u32, &str)]) -> Vec<(u32, String)> {
    items.iter().map(|(id, text)| (*id, String::from(*text))).collect()
}

#[test]
fn hello_world_scenario() {
    let mut ledger = Ledger::new();
    assert_eq!(append(&mut ledger, owner(), "hello"), Ok(0));
    let index = index_address(&owner(), &namespace()).unwrap();
    let first = item_address(&owner(), &namespace(), 0).unwrap();
    assert_eq!(ledger.data(&index), Some(vec![1, 0, 0, 0]));
    assert_eq!(ledger.data(&first), Some(vec![5, 0, 0, 0, b'h', b'e', b'l', b'l', b'o']));
    assert_eq!(append(&mut ledger, owner(), "world"), Ok(1));
    assert_eq!(ledger.data(&index), Some(vec![2, 0, 0, 0]));
    assert_eq!(
        list_all(&mut ledger, owner()),
        (texts(&[(0, "hello"), (1, "world")]), Ok(()))
    );
}

#[test]
fn first_append_provisions_the_index() {
    let mut ledger = Ledger::new();
    let index = index_address(&owner(), &namespace()).unwrap();
    assert_eq!(ledger.data(&index), None);
    let (m, request) = Appender::begin(owner(), namespace(), String::from("first")).unwrap();
    assert_eq!(m.phase(), AppendPhase::AwaitIndex);
    assert!(m.owner() == owner());
    assert!(m.namespace() == namespace());
    assert_eq!(m.content(), "first");
    match &request {
        Request::Read(location) => assert!(*location == index),
        _ => panic!("the index is read first"),
    }
    let (m, output) = m.step(ledger.answer(&request));
    assert_eq!(m.phase(), AppendPhase::AwaitProvision);
    let AppendOutput::Ask(request) = output else { panic!("the index is provisioned") };
    match &request {
        Request::Submit(operations) => {
            assert_eq!(operations.len(), 1);
            let Operation::Allocate(a) = &operations[0] else { panic!("an allocation") };
            assert!(a.location == index);
            assert!(a.base == owner());
            assert!(a.namespace == namespace());
            assert_eq!(a.seed, "postly_index");
            assert_eq!(a.space, 4);
        }
        _ => panic!("a submission"),
    }
    let (m, output) = m.step(ledger.answer(&request));
    assert_eq!(ledger.data(&index), Some(vec![0, 0, 0, 0]));
    assert_eq!(m.phase(), AppendPhase::AwaitAppend(0));
    let AppendOutput::Ask(request) = output else { panic!("the item is submitted") };
    let (m, output) = m.step(ledger.answer(&request));
    assert_eq!(m.phase(), AppendPhase::Finished);
    assert!(matches!(output, AppendOutput::Done(Ok(0))));
    assert_eq!(ledger.data(&index), Some(vec![1, 0, 0, 0]));
}

#[test]
fn append_submits_allocation_then_instruction() {
    let (m, _) = Appender::begin(owner(), namespace(), String::from("hello")).unwrap();
    let (m, output) = m.step(Event::Found(vec![42, 0, 0, 0]));
    assert_eq!(m.phase(), AppendPhase::AwaitAppend(42));
    let AppendOutput::Ask(Request::Submit(operations)) = output else {
        panic!("a submission")
    };
    assert_eq!(operations.len(), 2);
    let index = index_address(&owner(), &namespace()).unwrap();
    let item = item_address(&owner(), &namespace(), 42).unwrap();
    let Operation::Allocate(a) = &operations[0] else { panic!("an allocation first") };
    assert!(a.location == item);
    assert!(a.base == owner());
    assert!(a.namespace == namespace());
    assert_eq!(a.seed, "postly_account_42");
    assert_eq!(a.space, 9);
    let Operation::Invoke(i) = &operations[1] else { panic!("an instruction second") };
    assert!(i.program == namespace());
    assert!(i.index == index);
    assert!(i.item == item);
    assert_eq!(i.data, vec![5, 0, 0, 0, b'h', b'e', b'l', b'l', b'o']);
}

#[test]
fn appends_are_listed_in_order() {
    let mut ledger = Ledger::new();
    let posts = ["a", "", "ccc", "dd", "é", "f", "g", "h", "i", "j", "k", "l"];
    for (n, post) in posts.iter().enumerate() {
        assert_eq!(append(&mut ledger, owner(), post), Ok(n as u32));
    }
    let (items, result) = list_all(&mut ledger, owner());
    assert_eq!(result, Ok(()));
    assert_eq!(items.len(), posts.len());
    for (n, (id, text)) in items.iter().enumerate() {
        assert_eq!(*id, n as u32);
        assert_eq!(text, posts[n]);
    }
}

#[test]
fn owners_do_not_share_records() {
    let mut ledger = Ledger::new();
    let other = Address::new([9; 32]);
    assert_eq!(append(&mut ledger, owner(), "mine"), Ok(0));
    assert_eq!(append(&mut ledger, other, "theirs"), Ok(0));
    assert_eq!(append(&mut ledger, owner(), "mine too"), Ok(1));
    assert_eq!(list_all(&mut ledger, owner()), (texts(&[(0, "mine"), (1, "mine too")]), Ok(())));
    assert_eq!(list_all(&mut ledger, other), (texts(&[(0, "theirs")]), Ok(())));
}

#[test]
fn item_location_does_not_move() {
    let mut ledger = Ledger::new();
    let before = item_address(&owner(), &namespace(), 1).unwrap();
    for post in ["a", "b", "c"] {
        append(&mut ledger, owner(), post).unwrap();
    }
    let after = item_address(&owner(), &namespace(), 1).unwrap();
    assert!(before == after);
    assert_eq!(ledger.data(&after), Some(vec![1, 0, 0, 0, b'b']));
}

#[test]
fn listing_without_index_is_not_found() {
    let mut ledger = Ledger::new();
    assert_eq!(list_all(&mut ledger, owner()), (Vec::new(), Err(StoreError::NotFound)));
    let (m, _) = Lister::begin(owner(), namespace()).unwrap();
    assert_eq!(m.phase(), ListPhase::AwaitIndex);
    assert!(m.owner() == owner());
    assert!(m.namespace() == namespace());
    let (m, output) = m.step(Event::Absent);
    assert_eq!(m.phase(), ListPhase::Finished);
    assert_eq!(output.item, None);
    assert!(matches!(output.next, ListNext::Done(Err(StoreError::NotFound))));
}

#[test]
fn listing_an_empty_store_gives_nothing() {
    let mut ledger = Ledger::new();
    let index = index_address(&owner(), &namespace()).unwrap();
    ledger.put(&index, namespace(), vec![0, 0, 0, 0]);
    assert_eq!(list_all(&mut ledger, owner()), (Vec::new(), Ok(())));
}

#[test]
fn listing_reads_the_items_one_by_one() {
    let (m, request) = Lister::begin(owner(), namespace()).unwrap();
    let index = index_address(&owner(), &namespace()).unwrap();
    assert!(matches!(request, Request::Read(location) if location == index));
    let (m, output) = m.step(Event::Found(vec![2, 0, 0, 0]));
    assert_eq!(m.phase(), ListPhase::AwaitItem { id: 0, count: 2 });
    assert_eq!(output.item, None);
    let first = item_address(&owner(), &namespace(), 0).unwrap();
    assert!(matches!(output.next, ListNext::Ask(Request::Read(location)) if location == first));
    let (m, output) = m.step(Event::Found(vec![2, 0, 0, 0, b'h', b'i']));
    assert_eq!(m.phase(), ListPhase::AwaitItem { id: 1, count: 2 });
    assert_eq!(output.item, Some((0, String::from("hi"))));
    let second = item_address(&owner(), &namespace(), 1).unwrap();
    assert!(matches!(output.next, ListNext::Ask(Request::Read(location)) if location == second));
    let (m, output) = m.step(Event::Found(vec![0, 0, 0, 0]));
    assert_eq!(m.phase(), ListPhase::Finished);
    assert_eq!(output.item, Some((1, String::new())));
    assert!(matches!(output.next, ListNext::Done(Ok(()))));
}

#[test]
fn listing_breaks_off_at_the_first_missing_item() {
    let mut ledger = Ledger::new();
    for post in ["a", "b", "c"] {
        append(&mut ledger, owner(), post).unwrap();
    }
    let second = item_address(&owner(), &namespace(), 1).unwrap();
    ledger.accounts.remove(&second.bytes);
    assert_eq!(
        list_all(&mut ledger, owner()),
        (texts(&[(0, "a")]), Err(StoreError::MissingItem(1)))
    );
}

#[test]
fn listing_breaks_off_at_the_first_corrupt_item() {
    let mut ledger = Ledger::new();
    for post in ["a", "b", "c"] {
        append(&mut ledger, owner(), post).unwrap();
    }
    let third = item_address(&owner(), &namespace(), 2).unwrap();
    ledger.put(&third, namespace(), vec![1, 0, 0, 0, 0xff]);
    assert_eq!(
        list_all(&mut ledger, owner()),
        (texts(&[(0, "a"), (1, "b")]), Err(StoreError::MissingItem(2)))
    );
}

#[test]
fn listing_refuses_a_corrupt_index() {
    let mut ledger = Ledger::new();
    let index = index_address(&owner(), &namespace()).unwrap();
    ledger.put(&index, namespace(), vec![1, 0, 0]);
    assert_eq!(list_all(&mut ledger, owner()), (Vec::new(), Err(StoreError::CorruptIndex)));
}

#[test]
fn append_refuses_a_corrupt_index() {
    let mut ledger = Ledger::new();
    let index = index_address(&owner(), &namespace()).unwrap();
    ledger.put(&index, namespace(), vec![1, 0, 0, 0, 0]);
    assert_eq!(append(&mut ledger, owner(), "hello"), Err(StoreError::CorruptIndex));
    assert_eq!(ledger.data(&index), Some(vec![1, 0, 0, 0, 0]));
}

#[test]
fn append_reports_a_rejected_provision() {
    let (m, _) = Appender::begin(owner(), namespace(), String::from("hello")).unwrap();
    let (m, _) = m.step(Event::Absent);
    let (m, output) = m.step(Event::Rejected);
    assert_eq!(m.phase(), AppendPhase::Finished);
    assert!(matches!(output, AppendOutput::Done(Err(StoreError::ProvisionRejected))));
}

#[test]
fn append_reports_a_rejected_submission() {
    let mut ledger = Ledger::new();
    append(&mut ledger, owner(), "a").unwrap();
    // the location of the next item is taken
    let next = item_address(&owner(), &namespace(), 1).unwrap();
    ledger.put(&next, namespace(), vec![0; 5]);
    assert_eq!(append(&mut ledger, owner(), "b"), Err(StoreError::SubmitRejected));
    let index = index_address(&owner(), &namespace()).unwrap();
    assert_eq!(ledger.data(&index), Some(vec![1, 0, 0, 0]));
    assert_eq!(list_all(&mut ledger, owner()), (texts(&[(0, "a")]), Ok(())));
}

#[test]
fn append_is_rejected_when_the_index_belongs_to_another() {
    let mut ledger = Ledger::new();
    let index = index_address(&owner(), &namespace()).unwrap();
    ledger.put(&index, Address::new([3; 32]), vec![0, 0, 0, 0]);
    assert_eq!(append(&mut ledger, owner(), "a"), Err(StoreError::SubmitRejected));
    assert_eq!(ledger.data(&index), Some(vec![0, 0, 0, 0]));
    assert_eq!(ledger.data(&item_address(&owner(), &namespace(), 0).unwrap()), None);
}

#[test]
fn append_is_rejected_when_the_counter_is_full() {
    let mut ledger = Ledger::new();
    let index = index_address(&owner(), &namespace()).unwrap();
    ledger.put(&index, namespace(), vec![255; 4]);
    assert_eq!(append(&mut ledger, owner(), "a"), Err(StoreError::SubmitRejected));
    assert_eq!(ledger.data(&index), Some(vec![255; 4]));
}

#[test]
fn reserved_namespace_is_refused() {
    assert!(matches!(
        Appender::begin(owner(), reserved_namespace(), String::from("hello")),
        Err(StoreError::IllegalNamespace)
    ));
    assert!(matches!(
        Lister::begin(owner(), reserved_namespace()),
        Err(StoreError::IllegalNamespace)
    ));
}

#[test]
fn events_out_of_turn_end_an_append() {
    for event in [Event::Confirmed, Event::Rejected] {
        let (m, _) = Appender::begin(owner(), namespace(), String::from("x")).unwrap();
        let (m, output) = m.step(event);
        assert_eq!(m.phase(), AppendPhase::Finished);
        assert!(matches!(output, AppendOutput::Done(Err(StoreError::OutOfTurn))));
    }
    for event in [Event::Absent, Event::Found(vec![0; 4])] {
        let (m, _) = Appender::begin(owner(), namespace(), String::from("x")).unwrap();
        let (m, _) = m.step(Event::Absent);
        let (_, output) = m.step(event);
        assert!(matches!(output, AppendOutput::Done(Err(StoreError::OutOfTurn))));
    }
    for event in [Event::Absent, Event::Found(vec![0; 4])] {
        let (m, _) = Appender::begin(owner(), namespace(), String::from("x")).unwrap();
        let (m, _) = m.step(Event::Found(vec![0; 4]));
        let (_, output) = m.step(event);
        assert!(matches!(output, AppendOutput::Done(Err(StoreError::OutOfTurn))));
    }
    let (m, _) = Appender::begin(owner(), namespace(), String::from("x")).unwrap();
    let (m, _) = m.step(Event::Found(vec![0; 4]));
    let (m, output) = m.step(Event::Confirmed);
    assert!(matches!(output, AppendOutput::Done(Ok(0))));
    let (_, output) = m.step(Event::Confirmed);
    assert!(matches!(output, AppendOutput::Done(Err(StoreError::OutOfTurn))));
}

#[test]
fn events_out_of_turn_end_a_listing() {
    for event in [Event::Confirmed, Event::Rejected] {
        let (m, _) = Lister::begin(owner(), namespace()).unwrap();
        let (m, output) = m.step(event);
        assert_eq!(m.phase(), ListPhase::Finished);
        assert_eq!(output.item, None);
        assert!(matches!(output.next, ListNext::Done(Err(StoreError::OutOfTurn))));
    }
    for event in [Event::Confirmed, Event::Rejected] {
        let (m, _) = Lister::begin(owner(), namespace()).unwrap();
        let (m, _) = m.step(Event::Found(vec![1, 0, 0, 0]));
        let (_, output) = m.step(event);
        assert!(matches!(output.next, ListNext::Done(Err(StoreError::OutOfTurn))));
    }
    let (m, _) = Lister::begin(owner(), namespace()).unwrap();
    let (m, _) = m.step(Event::Found(vec![0, 0, 0, 0]));
    let (_, output) = m.step(Event::Absent);
    assert!(matches!(output.next, ListNext::Done(Err(StoreError::OutOfTurn))));
}
