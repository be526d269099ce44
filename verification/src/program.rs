//! The ledger-side step: check who owns the two accounts, advance the index
//! record and store the item record.

use crate::address::Address;
use crate::decimal::{decimal, push_decimal};
use crate::record::{
    index_decoding, index_encoding, item_decoding, item_encoding, lemma_index_round_trip,
    lemma_item_encoding_unique,
    PostlyAccount, PostlyAccountIndex,
};
use vstd::prelude::*;
use vstd::string::StringExecFns;

verus! {

/// An account as the ledger hands it to the program: who owns it and what
/// it holds.
#[derive(Debug)]
pub struct Account {
    pub owner: Address,
    pub data: Vec<u8>,
}

/// An account as a value.
pub struct AccountView {
    pub owner: Seq<u8>,
    pub data: Seq<u8>,
}

impl View for Account {
    type V = AccountView;

    open spec fn view(&self) -> AccountView {
        AccountView { owner: self.owner@, data: self.data@ }
    }
}

/// What the program reports once it has handled an instruction: where the
/// counter stands now and the text that was stored.
#[derive(Debug)]
pub struct Confirmation {
    pub count: u32,
    pub post: String,
}

/// The text of a confirmation.
pub open spec fn confirmation_text(count: u32, post: Seq<char>) -> Seq<char> {
    "Index: "@ + decimal(count as nat) + "! My Post: "@ + post + "!"@
}

impl Confirmation {
    /// The line to log for this confirmation.
    pub fn message(&self) -> (text: String)
        ensures
            text@ == confirmation_text(self.count, self.post@),
    {
        let mut text = String::from_str("Index: ");
        push_decimal(&mut text, self.count);
        text.append("! My Post: ");
        text.append(self.post.as_str());
        text.append("!");
        assert(text@ =~= confirmation_text(self.count, self.post@));
        text
    }
}

/// Why the program refused an instruction.
#[derive(Clone, Copy, Debug, PartialEq, Eq, Structural)]
pub enum ProgramError {
    /// Fewer than two accounts were passed.
    NotEnoughAccountKeys,
    /// The index account or the item account belongs to another namespace.
    IncorrectOwner,
    /// The index account does not hold an index record.
    CorruptIndex,
    /// The counter is at its largest value and cannot advance.
    IndexFull,
    /// The instruction data are not an item record.
    InvalidInstruction,
    /// The item account is smaller than the item record.
    AccountTooSmall,
}

/// The accounts of a list, as values.
pub open spec fn views(accounts: Seq<Account>) -> Seq<AccountView> {
    Seq::new(accounts.len(), |i: int| accounts[i]@)
}

/// `data` with its first bytes replaced by `bytes`.
pub open spec fn overwritten(data: Seq<u8>, bytes: Seq<u8>) -> Seq<u8>
    recommends
        bytes.len() <= data.len(),
{
    bytes + data.subrange(bytes.len() as int, data.len() as int)
}

/// What the program does with an instruction: the accounts after it, or
/// the reason for which it refuses and changes nothing. The first account
/// is the index account, the second the item account.
pub open spec fn spec_process(
    program: Seq<u8>,
    accounts: Seq<AccountView>,
    instruction: Seq<u8>,
) -> Result<Seq<AccountView>, ProgramError> {
    if accounts.len() < 2 {
        Err(ProgramError::NotEnoughAccountKeys)
    } else if accounts[0].owner != program || accounts[1].owner != program {
        Err(ProgramError::IncorrectOwner)
    } else {
        match index_decoding(accounts[0].data) {
            None => Err(ProgramError::CorruptIndex),
            Some(count) => {
                if count == u32::MAX {
                    Err(ProgramError::IndexFull)
                } else {
                    match item_decoding(instruction) {
                        None => Err(ProgramError::InvalidInstruction),
                        Some(text) => {
                            if accounts[1].data.len() < item_encoding(text).len() {
                                Err(ProgramError::AccountTooSmall)
                            } else {
                                Ok(
                                    accounts.update(
                                        0,
                                        AccountView {
                                            owner: accounts[0].owner,
                                            data: index_encoding((count + 1) as u32),
                                        },
                                    ).update(
                                        1,
                                        AccountView {
                                            owner: accounts[1].owner,
                                            data: overwritten(
                                                accounts[1].data,
                                                item_encoding(text),
                                            ),
                                        },
                                    ),
                                )
                            }
                        },
                    }
                }
            },
        }
    }
}

/// `data` with its first bytes replaced by `bytes`.
fn overwrite(data: &Vec<u8>, bytes: &Vec<u8>) -> (out: Vec<u8>)
    requires
        bytes@.len() <= data@.len(),
    ensures
        out@ == overwritten(data@, bytes@),
{
    let mut out: Vec<u8> = Vec::new();
    let mut i: usize = 0;
    while i < data.len()
        invariant
            i <= data@.len(),
            bytes@.len() <= data@.len(),
            out@.len() == i,
            forall|j: int| 0 <= j < i ==> out@[j] == overwritten(data@, bytes@)[j],
        decreases data@.len() - i,
    {
        if i < bytes.len() {
            out.push(bytes[i]);
        } else {
            out.push(data[i]);
        }
        i += 1;
    }
    assert(out@ =~= overwritten(data@, bytes@));
    out
}

/// Handles one instruction. Both accounts must belong to `program_id`. The
/// counter in the index account advances by one, then the item record that
/// the instruction carries is stored at the start of the item account.
/// Either both happen, and the new counter and the text are reported for
/// the log, or nothing changes.
pub fn process_instruction(
    program_id: &Address,
    accounts: &mut Vec<Account>,
    instruction_data: &[u8],
) -> (r: Result<Confirmation, ProgramError>)
    ensures
        match r {
            Ok(done) => spec_process(program_id@, views(old(accounts)@), instruction_data@) == Ok::<
                Seq<AccountView>,
                ProgramError,
            >(views(final(accounts)@)) && index_decoding(final(accounts)@[0].data@) == Some(
                done.count,
            ) && item_decoding(instruction_data@) == Some(done.post@),
            Err(e) => spec_process(program_id@, views(old(accounts)@), instruction_data@) == Err::<
                Seq<AccountView>,
                ProgramError,
            >(e) && final(accounts)@ == old(accounts)@,
        },
{
    if accounts.len() < 2 {
        return Err(ProgramError::NotEnoughAccountKeys);
    }
    if accounts[0].owner != *program_id || accounts[1].owner != *program_id {
        return Err(ProgramError::IncorrectOwner);
    }
    let index = match PostlyAccountIndex::try_from_slice(accounts[0].data.as_slice()) {
        Ok(index) => index,
        Err(_) => {
            return Err(ProgramError::CorruptIndex);
        },
    };
    if index.post_n == u32::MAX {
        return Err(ProgramError::IndexFull);
    }
    let index = PostlyAccountIndex { post_n: index.post_n + 1 };
    let post = match PostlyAccount::try_from_slice(instruction_data) {
        Ok(post) => post,
        Err(_) => {
            return Err(ProgramError::InvalidInstruction);
        },
    };
    proof {
        lemma_item_encoding_unique(instruction_data@);
    }
    let post_bytes = match post.to_bytes() {
        Ok(bytes) => bytes,
        Err(_) => vstd::pervasive::unreached(),
    };
    if accounts[1].data.len() < post_bytes.len() {
        return Err(ProgramError::AccountTooSmall);
    }
    let index_account = Account { owner: accounts[0].owner, data: index.to_bytes() };
    let post_account = Account {
        owner: accounts[1].owner,
        data: overwrite(&accounts[1].data, &post_bytes),
    };
    accounts.set(0, index_account);
    accounts.set(1, post_account);
    proof {
        lemma_index_round_trip(index.post_n);
    }
    assert(views(accounts@) =~= spec_process(
        program_id@,
        views(old(accounts)@),
        instruction_data@,
    )->Ok_0);
    Ok(Confirmation { count: index.post_n, post: post.post })
}

} // verus!
