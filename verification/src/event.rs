//! What the wallet reports to the outside, and what it asks of it.

use crate::address::Address;
use crate::error::MultiSigError;
use crate::uint::U256;
use vstd::prelude::*;

verus! {

/// A record for the host's log. The wallet hands it out; the caller emits it.
#[derive(Debug, PartialEq, Eq)]
pub enum Event {
    /// An amount arrived without a call.
    Deposit { sender: Address, amount: U256, balance: U256 },
    /// A transaction was appended to the ledger.
    SubmitTransaction { owner: Address, tx_index: U256, to: Address, value: U256, data: Vec<u8> },
    /// An owner approved a transaction.
    ConfirmTransaction { owner: Address, tx_index: U256 },
    /// An owner withdrew an approval.
    RevokeConfirmation { owner: Address, tx_index: U256 },
    /// A transaction's call went through.
    ExecuteTransaction { owner: Address, tx_index: U256 },
}

/// An event with numbers for its integers and a sequence for its bytes.
pub enum EventView {
    Deposit { sender: Address, amount: nat, balance: nat },
    SubmitTransaction { owner: Address, tx_index: nat, to: Address, value: nat, data: Seq<u8> },
    ConfirmTransaction { owner: Address, tx_index: nat },
    RevokeConfirmation { owner: Address, tx_index: nat },
    ExecuteTransaction { owner: Address, tx_index: nat },
}

impl View for Event {
    type V = EventView;

    open spec fn view(&self) -> EventView {
        match *self {
            Event::Deposit { sender, amount, balance } => EventView::Deposit {
                sender,
                amount: amount@,
                balance: balance@,
            },
            Event::SubmitTransaction { owner, tx_index, to, value, data } => {
                EventView::SubmitTransaction {
                    owner,
                    tx_index: tx_index@,
                    to,
                    value: value@,
                    data: data@,
                }
            },
            Event::ConfirmTransaction { owner, tx_index } => EventView::ConfirmTransaction {
                owner,
                tx_index: tx_index@,
            },
            Event::RevokeConfirmation { owner, tx_index } => EventView::RevokeConfirmation {
                owner,
                tx_index: tx_index@,
            },
            Event::ExecuteTransaction { owner, tx_index } => EventView::ExecuteTransaction {
                owner,
                tx_index: tx_index@,
            },
        }
    }
}

/// A call that the wallet has committed to and that the caller has to make:
/// `data` sent to `to` together with `value`.
#[derive(Debug, PartialEq, Eq)]
pub struct PendingCall {
    /// Who asked for the execution.
    pub sender: Address,
    /// The position of the transaction in the ledger.
    pub tx_index: U256,
    pub to: Address,
    pub value: U256,
    pub data: Vec<u8>,
}

/// A pending call with numbers for its integers and a sequence for its bytes.
pub struct PendingCallView {
    pub sender: Address,
    pub tx_index: nat,
    pub to: Address,
    pub value: nat,
    pub data: Seq<u8>,
}

impl View for PendingCall {
    type V = PendingCallView;

    open spec fn view(&self) -> PendingCallView {
        PendingCallView {
            sender: self.sender,
            tx_index: self.tx_index@,
            to: self.to,
            value: self.value@,
            data: self.data@,
        }
    }
}

impl PendingCall {
    /// The end of an execution, once the host has made the call: the event to
    /// emit where the call went through, `ExecuteFailed` where it did not.
    /// The transaction stays executed either way.
    pub fn settle(&self, succeeded: bool) -> (r: Result<Event, MultiSigError>)
        ensures
            succeeded ==> r == Ok::<Event, MultiSigError>(
                Event::ExecuteTransaction { owner: self.sender, tx_index: self.tx_index },
            ),
            !succeeded ==> r == Err::<Event, MultiSigError>(MultiSigError::ExecuteFailed),
    {
        if succeeded {
            Ok(Event::ExecuteTransaction { owner: self.sender, tx_index: self.tx_index })
        } else {
            Err(MultiSigError::ExecuteFailed)
        }
    }
}

} // verus!
