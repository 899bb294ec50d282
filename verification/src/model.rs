//! The wallet as a mathematical state machine: what it holds, and what each
//! operation makes of it.

use crate::address::Address;
use crate::error::MultiSigError;
use vstd::prelude::*;

verus! {

/// One entry of the ledger.
pub struct TransactionView {
    /// The identity that the call goes to.
    pub to: Address,
    /// The amount sent with the call.
    pub value: nat,
    /// The bytes handed to the target.
    pub data: Seq<u8>,
    /// Whether the call was dispatched.
    pub executed: bool,
    /// The recorded number of confirmations.
    pub num_confirmations: nat,
    /// The row of the confirmation matrix: who has confirmed.
    pub confirmed_by: Set<Address>,
}

impl TransactionView {
    /// A freshly submitted entry: not executed, confirmed by nobody.
    pub open spec fn submitted(to: Address, value: nat, data: Seq<u8>) -> TransactionView {
        TransactionView {
            to,
            value,
            data,
            executed: false,
            num_confirmations: 0,
            confirmed_by: Set::empty(),
        }
    }

    /// The entry with `who`'s confirmation set or cleared, and the count
    /// moved by one with it.
    pub open spec fn with_confirmation(self, who: Address, approved: bool) -> TransactionView {
        if approved {
            TransactionView {
                num_confirmations: self.num_confirmations + 1,
                confirmed_by: self.confirmed_by.insert(who),
                ..self
            }
        } else {
            TransactionView {
                num_confirmations: (self.num_confirmations - 1) as nat,
                confirmed_by: self.confirmed_by.remove(who),
                ..self
            }
        }
    }

    /// Only owners have confirmed, and the count is the number of them.
    pub open spec fn valid_for(self, owners: Seq<Address>) -> bool {
        &&& self.confirmed_by.finite()
        &&& self.confirmed_by.subset_of(owners.to_set())
        &&& self.num_confirmations == self.confirmed_by.len()
    }
}

/// The whole state of a wallet.
pub struct WalletView {
    /// The owners, in the order in which they were registered.
    pub owners: Seq<Address>,
    /// How many confirmations a transaction needs; 0 until the owners are set.
    pub required: nat,
    /// The ledger, in the order of submission.
    pub transactions: Seq<TransactionView>,
}

impl WalletView {
    /// A wallet without owners and with an empty ledger.
    pub open spec fn empty() -> WalletView {
        WalletView { owners: Seq::empty(), required: 0, transactions: Seq::empty() }
    }

    pub open spec fn initialized(self) -> bool {
        self.owners.len() > 0
    }

    pub open spec fn is_owner(self, who: Address) -> bool {
        self.owners.contains(who)
    }

    pub open spec fn has_transaction(self, index: nat) -> bool {
        index < self.transactions.len()
    }

    /// The entry of the confirmation matrix for a transaction and an identity.
    pub open spec fn is_confirmed(self, index: nat, who: Address) -> bool {
        self.has_transaction(index) && self.transactions[index as int].confirmed_by.contains(who)
    }

    /// The owners with a true entry in a transaction's row of the matrix.
    pub open spec fn confirming_owners(self, index: nat) -> Set<Address> {
        Set::new(|who: Address| self.is_owner(who) && self.is_confirmed(index, who))
    }

    /// What holds of every wallet: the owners are distinct and none is zero,
    /// the threshold lies between 1 and their number once they are set, and
    /// every entry's count agrees with its row of the matrix.
    pub open spec fn valid(self) -> bool {
        &&& self.owners.no_duplicates()
        &&& forall|i: int| 0 <= i < self.owners.len() ==> !(#[trigger] self.owners[i]).is_zero()
        &&& if self.owners.len() == 0 {
            self.required == 0
        } else {
            1 <= self.required <= self.owners.len()
        }
        &&& forall|i: int|
            0 <= i < self.transactions.len() ==> (#[trigger] self.transactions[i]).valid_for(
                self.owners,
            )
    }

    /// Setting the owners and the threshold, once.
    pub open spec fn initialize(self, owners: Seq<Address>, required: nat) -> Result<
        WalletView,
        MultiSigError,
    > {
        if self.initialized() {
            Err(MultiSigError::AlreadyInitialized)
        } else if owners.len() == 0 {
            Err(MultiSigError::ZeroOwners)
        } else if required == 0 || required > owners.len() {
            Err(MultiSigError::InvalidConfirmationNumber)
        } else if exists|i: int| 0 <= i < owners.len() && (#[trigger] owners[i]).is_zero() {
            Err(MultiSigError::InvalidOwner)
        } else if !owners.no_duplicates() {
            Err(MultiSigError::OwnerNotUnique)
        } else {
            Ok(WalletView { owners, required, ..self })
        }
    }

    /// Appending a transaction to the ledger; its position is the ledger's
    /// length before.
    pub open spec fn submit(self, to: Address, value: nat, data: Seq<u8>) -> WalletView {
        WalletView {
            transactions: self.transactions.push(TransactionView::submitted(to, value, data)),
            ..self
        }
    }

    /// The wallet with one entry of the matrix set or cleared.
    pub open spec fn with_confirmation(self, index: nat, who: Address, approved: bool) -> WalletView
        recommends
            self.has_transaction(index),
    {
        WalletView {
            transactions: self.transactions.update(
                index as int,
                self.transactions[index as int].with_confirmation(who, approved),
            ),
            ..self
        }
    }

    /// An owner's approval of a pending transaction.
    pub open spec fn confirm(self, sender: Address, index: nat) -> Result<
        WalletView,
        MultiSigError,
    > {
        if !self.is_owner(sender) {
            Err(MultiSigError::NotOwner)
        } else if !self.has_transaction(index) {
            Err(MultiSigError::TxDoesNotExist)
        } else if self.transactions[index as int].executed {
            Err(MultiSigError::TxAlreadyExecuted)
        } else if self.is_confirmed(index, sender) {
            Err(MultiSigError::TxAlreadyConfirmed)
        } else {
            Ok(self.with_confirmation(index, sender, true))
        }
    }

    /// An owner's withdrawal of an approval given before.
    pub open spec fn revoke(self, sender: Address, index: nat) -> Result<
        WalletView,
        MultiSigError,
    > {
        if !self.is_owner(sender) {
            Err(MultiSigError::NotOwner)
        } else if !self.has_transaction(index) {
            Err(MultiSigError::TxDoesNotExist)
        } else if self.transactions[index as int].executed {
            Err(MultiSigError::TxAlreadyExecuted)
        } else if !self.is_confirmed(index, sender) {
            Err(MultiSigError::TxNotConfirmed)
        } else {
            Ok(self.with_confirmation(index, sender, false))
        }
    }

    /// Committing a transaction to dispatch: it is marked executed, for good.
    pub open spec fn execute(self, index: nat) -> Result<WalletView, MultiSigError> {
        if !self.has_transaction(index) {
            Err(MultiSigError::TxDoesNotExist)
        } else if self.transactions[index as int].executed {
            Err(MultiSigError::TxAlreadyExecuted)
        } else if self.transactions[index as int].num_confirmations < self.required {
            Err(MultiSigError::ConfirmationNumberNotEnough)
        } else {
            Ok(
                WalletView {
                    transactions: self.transactions.update(
                        index as int,
                        TransactionView { executed: true, ..self.transactions[index as int] },
                    ),
                    ..self
                },
            )
        }
    }
}

/// One request to a wallet.
pub enum Operation {
    Initialize { owners: Seq<Address>, required: nat },
    Submit { to: Address, value: nat, data: Seq<u8> },
    Confirm { sender: Address, index: nat },
    Revoke { sender: Address, index: nat },
    Execute { index: nat },
}

impl WalletView {
    /// What a request makes of the wallet, or why it is refused.
    pub open spec fn apply(self, op: Operation) -> Result<WalletView, MultiSigError> {
        match op {
            Operation::Initialize { owners, required } => self.initialize(owners, required),
            Operation::Submit { to, value, data } => Ok(self.submit(to, value, data)),
            Operation::Confirm { sender, index } => self.confirm(sender, index),
            Operation::Revoke { sender, index } => self.revoke(sender, index),
            Operation::Execute { index } => self.execute(index),
        }
    }

    /// The wallet after a request: a refused request leaves it as it was.
    pub open spec fn after(self, op: Operation) -> WalletView {
        match self.apply(op) {
            Ok(next) => next,
            Err(_) => self,
        }
    }

    /// The wallet after a series of requests, taken in order.
    pub open spec fn after_all(self, ops: Seq<Operation>) -> WalletView
        decreases ops.len(),
    {
        if ops.len() == 0 {
            self
        } else {
            self.after_all(ops.drop_last()).after(ops.last())
        }
    }
}

} // verus!
