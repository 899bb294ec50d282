//! The wallet: its owners, its threshold, its ledger and who has confirmed
//! what.

use crate::address::Address;
use crate::error::MultiSigError;
use crate::event::{Event, EventView, PendingCall, PendingCallView};
use crate::model::{TransactionView, WalletView};
use crate::uint::U256;
use vstd::prelude::*;

verus! {

/// One entry of the ledger, as it is kept.
struct Transaction {
    to: Address,
    value: U256,
    data: Vec<u8>,
    executed: bool,
    num_confirmations: usize,
    confirmed_by: Vec<Address>,
}

impl View for Transaction {
    type V = TransactionView;

    closed spec fn view(&self) -> TransactionView {
        TransactionView {
            to: self.to,
            value: self.value@,
            data: self.data@,
            executed: self.executed,
            num_confirmations: self.num_confirmations as nat,
            confirmed_by: self.confirmed_by@.to_set(),
        }
    }
}

/// The ledger as the model sees it.
spec fn ledger_view(transactions: Seq<Transaction>) -> Seq<TransactionView> {
    transactions.map_values(|t: Transaction| t@)
}

/// Where `who` stands in `list`, if it is there.
fn position(list: &Vec<Address>, who: Address) -> (r: Option<usize>)
    ensures
        match r {
            Some(i) => i < list.len() && list[i as int] == who,
            None => !list@.contains(who),
        },
{
    let mut i: usize = 0;
    while i < list.len()
        invariant
            i <= list.len(),
            forall|j: int| 0 <= j < i ==> list[j] != who,
        decreases list.len() - i,
    {
        if list[i] == who {
            return Some(i);
        }
        i = i + 1;
    }
    None
}

/// Whether some identity in `list` is the zero identity.
fn any_zero(list: &Vec<Address>) -> (r: bool)
    ensures
        r == exists|i: int| 0 <= i < list.len() && (#[trigger] list@[i]).is_zero(),
{
    let mut i: usize = 0;
    while i < list.len()
        invariant
            i <= list.len(),
            forall|j: int| 0 <= j < i ==> !(#[trigger] list@[j]).is_zero(),
        decreases list.len() - i,
    {
        if list[i].is_zero() {
            return true;
        }
        i = i + 1;
    }
    false
}

/// Whether no identity occurs twice in `list`.
fn all_distinct(list: &Vec<Address>) -> (r: bool)
    ensures
        r == list@.no_duplicates(),
{
    let mut i: usize = 0;
    while i < list.len()
        invariant
            i <= list.len(),
            forall|a: int, b: int| 0 <= b < a < i ==> list@[a] != list@[b],
        decreases list.len() - i,
    {
        let mut j: usize = 0;
        while j < i
            invariant
                j <= i < list.len(),
                forall|b: int| 0 <= b < j ==> list@[i as int] != list@[b],
            decreases i - j,
        {
            if list[i] == list[j] {
                return false;
            }
            j = j + 1;
        }
        i = i + 1;
    }
    true
}

/// One entry of a ledger as it is kept outside a wallet: what the entry
/// asks for, whether it was executed, its recorded count, and the owners
/// whose confirmation stands.
#[derive(Debug, PartialEq, Eq)]
pub struct StoredTransaction {
    pub to: Address,
    pub value: U256,
    pub data: Vec<u8>,
    pub executed: bool,
    pub num_confirmations: U256,
    pub confirmed_by: Vec<Address>,
}

impl View for StoredTransaction {
    type V = TransactionView;

    open spec fn view(&self) -> TransactionView {
        TransactionView {
            to: self.to,
            value: self.value@,
            data: self.data@,
            executed: self.executed,
            num_confirmations: self.num_confirmations@,
            confirmed_by: self.confirmed_by@.to_set(),
        }
    }
}

/// The wallet that the parts describe.
pub open spec fn stored_view(
    owners: Seq<Address>,
    required: nat,
    transactions: Seq<StoredTransaction>,
) -> WalletView {
    WalletView { owners, required, transactions: transactions.map_values(|t: StoredTransaction| t@) }
}

/// Whether the parts describe a wallet: what they describe is valid, and no
/// entry lists an owner twice.
pub open spec fn restorable(
    owners: Seq<Address>,
    required: nat,
    transactions: Seq<StoredTransaction>,
) -> bool {
    &&& stored_view(owners, required, transactions).valid()
    &&& forall|i: int|
        0 <= i < transactions.len() ==> (#[trigger] transactions[i]).confirmed_by@.no_duplicates()
}

/// Whether every identity in `list` occurs in `among`.
fn all_among(list: &Vec<Address>, among: &Vec<Address>) -> (r: bool)
    ensures
        r == list@.to_set().subset_of(among@.to_set()),
{
    let mut i: usize = 0;
    while i < list.len()
        invariant
            i <= list.len(),
            forall|j: int| 0 <= j < i ==> among@.contains(#[trigger] list@[j]),
        decreases list.len() - i,
    {
        if position(among, list[i]).is_none() {
            assert(list@.to_set().contains(list@[i as int]));
            return false;
        }
        i = i + 1;
    }
    true
}

/// Appending an identity that a duplicate-free list lacks keeps the list
/// duplicate-free and adds the identity to its set.
proof fn lemma_push_keeps_distinct(list: Seq<Address>, who: Address)
    requires
        list.no_duplicates(),
        !list.contains(who),
    ensures
        list.push(who).no_duplicates(),
        list.push(who).to_set() == list.to_set().insert(who),
{
    let longer = list.push(who);
    assert forall|a: Address| longer.to_set().contains(a) == list.to_set().insert(who).contains(
        a,
    ) by {
        if longer.contains(a) {
            let i = choose|i: int| 0 <= i < longer.len() && longer[i] == a;
            if i < list.len() {
                assert(list[i] == a);
            }
        }
        if list.contains(a) {
            let i = choose|i: int| 0 <= i < list.len() && list[i] == a;
            assert(longer[i] == a);
        }
        if a == who {
            assert(longer[list.len() as int] == a);
        }
    }
    assert(longer.to_set() =~= list.to_set().insert(who));
}

/// Removing a position from a duplicate-free list keeps the list
/// duplicate-free and takes the identity that stood there out of its set.
proof fn lemma_remove_keeps_distinct(list: Seq<Address>, at: int)
    requires
        list.no_duplicates(),
        0 <= at < list.len(),
    ensures
        list.remove(at).no_duplicates(),
        list.remove(at).to_set() == list.to_set().remove(list[at]),
{
    let shorter = list.remove(at);
    list.remove_ensures(at);
    assert forall|a: Address| shorter.to_set().contains(a) == list.to_set().remove(
        list[at],
    ).contains(a) by {
        if shorter.contains(a) {
            let i = choose|i: int| 0 <= i < shorter.len() && shorter[i] == a;
            if i < at {
                assert(list[i] == a);
            } else {
                assert(list[i + 1] == a);
            }
        }
        if list.contains(a) && a != list[at] {
            let i = choose|i: int| 0 <= i < list.len() && list[i] == a;
            if i < at {
                assert(shorter[i] == a);
            } else {
                assert(shorter[i - 1] == a);
            }
        }
    }
    assert(shorter.to_set() =~= list.to_set().remove(list[at]));
}

/// A wallet under the control of several owners.
pub struct Counter {
    owners: Vec<Address>,
    num_confirmations_required: usize,
    transactions: Vec<Transaction>,
}

impl View for Counter {
    type V = WalletView;

    closed spec fn view(&self) -> WalletView {
        WalletView {
            owners: self.owners@,
            required: self.num_confirmations_required as nat,
            transactions: ledger_view(self.transactions@),
        }
    }
}

impl Counter {
    #[verifier::type_invariant]
    spec fn inv(self) -> bool {
        &&& self@.valid()
        &&& forall|i: int|
            0 <= i < self.transactions.len() ==> (#[trigger] self.transactions[i]).confirmed_by@.no_duplicates()
    }

    /// A wallet without owners and with an empty ledger.
    pub fn new() -> (r: Counter)
        ensures
            r@ == WalletView::empty(),
    {
        let r = Counter {
            owners: Vec::new(),
            num_confirmations_required: 0,
            transactions: Vec::new(),
        };
        assert(r@.transactions =~= Seq::empty());
        r
    }

    /// Rebuilds a wallet from parts that were kept outside it, where they
    /// describe one.
    pub fn from_parts(
        owners: Vec<Address>,
        num_confirmations_required: U256,
        transactions: &Vec<StoredTransaction>,
    ) -> (r: Option<Counter>)
        ensures
            match r {
                Some(wallet) => {
                    &&& restorable(owners@, num_confirmations_required@, transactions@)
                    &&& wallet@ == stored_view(
                        owners@,
                        num_confirmations_required@,
                        transactions@,
                    )
                },
                None => !restorable(owners@, num_confirmations_required@, transactions@),
            },
    {
        let ghost described = stored_view(owners@, num_confirmations_required@, transactions@);
        if !all_distinct(&owners) {
            return None;
        }
        if any_zero(&owners) {
            let ghost i = choose|i: int| 0 <= i < owners.len() && (#[trigger] owners@[i]).is_zero();
            assert(described.owners[i].is_zero());
            return None;
        }
        let required = match num_confirmations_required.to_usize() {
            Some(required) => required,
            None => {
                return None;
            },
        };
        if owners.len() == 0 {
            if required != 0 {
                return None;
            }
        } else if required == 0 || required > owners.len() {
            return None;
        }
        let mut ledger: Vec<Transaction> = Vec::new();
        let mut i: usize = 0;
        while i < transactions.len()
            invariant
                i <= transactions.len(),
                ledger.len() == i,
                described == stored_view(owners@, num_confirmations_required@, transactions@),
                forall|j: int|
                    0 <= j < i ==> {
                        &&& (#[trigger] ledger@[j])@ == transactions@[j]@
                        &&& ledger@[j].confirmed_by@ == transactions@[j].confirmed_by@
                        &&& transactions@[j].confirmed_by@.no_duplicates()
                        &&& transactions@[j]@.valid_for(owners@)
                    },
            decreases transactions.len() - i,
        {
            let stored = &transactions[i];
            assert(described.transactions[i as int] == stored@);
            if !all_distinct(&stored.confirmed_by) {
                return None;
            }
            if !all_among(&stored.confirmed_by, &owners) {
                return None;
            }
            proof {
                stored.confirmed_by@.unique_seq_to_set();
                vstd::seq_lib::seq_to_set_is_finite(stored.confirmed_by@);
                assert(stored.confirmed_by@.len() == stored.confirmed_by.len());
            }
            let count = match stored.num_confirmations.to_usize() {
                Some(count) => count,
                None => {
                    return None;
                },
            };
            if count != stored.confirmed_by.len() {
                return None;
            }
            ledger.push(
                Transaction {
                    to: stored.to,
                    value: stored.value,
                    data: stored.data.clone(),
                    executed: stored.executed,
                    num_confirmations: count,
                    confirmed_by: stored.confirmed_by.clone(),
                },
            );
            i = i + 1;
        }
        proof {
            assert(ledger_view(ledger@) =~= described.transactions);
            assert forall|k: int| 0 <= k < transactions.len() implies {
                &&& (#[trigger] transactions@[k]).confirmed_by@.no_duplicates()
                &&& described.transactions[k].valid_for(owners@)
            } by {
                assert(ledger@[k]@ == transactions@[k]@);
            }
        }
        Some(Counter { owners, num_confirmations_required: required, transactions: ledger })
    }

    /// The position in the ledger that `tx_index` names, if there is one.
    fn ledger_index(&self, tx_index: U256) -> (r: Option<usize>)
        ensures
            match r {
                Some(i) => self@.has_transaction(tx_index@) && i == tx_index@,
                None => !self@.has_transaction(tx_index@),
            },
    {
        assert(self@.transactions.len() == self.transactions.len());
        match tx_index.to_usize() {
            Some(i) => if i < self.transactions.len() {
                Some(i)
            } else {
                None
            },
            None => None,
        }
    }

    /// How many confirmations a transaction needs before it can be executed.
    pub fn num_confirmations_required(&self) -> (r: Result<U256, MultiSigError>)
        ensures
            self@.valid(),
            r matches Ok(n) && n@ == self@.required,
    {
        proof {
            use_type_invariant(self);
        }
        Ok(U256::from_usize(self.num_confirmations_required))
    }

    /// Whether `check_address` is one of the owners.
    pub fn is_owner(&self, check_address: Address) -> (r: bool)
        ensures
            self@.valid(),
            r == self@.is_owner(check_address),
    {
        proof {
            use_type_invariant(self);
        }
        position(&self.owners, check_address).is_some()
    }

    /// The owners, in the order in which they were registered.
    pub fn owners(&self) -> (r: Vec<Address>)
        ensures
            self@.valid(),
            r@ == self@.owners,
    {
        proof {
            use_type_invariant(self);
        }
        self.owners.clone()
    }

    /// The length of the ledger.
    pub fn get_transaction_count(&self) -> (r: U256)
        ensures
            self@.valid(),
            r@ == self@.transactions.len(),
    {
        proof {
            use_type_invariant(self);
        }
        U256::from_usize(self.transactions.len())
    }

    /// Whether `who` has a standing confirmation on the transaction at
    /// `tx_index`: the entry of the confirmation matrix.
    pub fn is_confirmed(&self, tx_index: U256, who: Address) -> (r: bool)
        ensures
            self@.valid(),
            r == self@.is_confirmed(tx_index@, who),
    {
        proof {
            use_type_invariant(self);
        }
        match self.ledger_index(tx_index) {
            Some(i) => position(&self.transactions[i].confirmed_by, who).is_some(),
            None => false,
        }
    }

    /// The transaction at `tx_index`: its target, amount, payload, whether it
    /// was executed, and its number of confirmations.
    pub fn get_transaction(&self, tx_index: U256) -> (r: Result<
        (Address, U256, Vec<u8>, bool, U256),
        MultiSigError,
    >)
        ensures
            self@.valid(),
            match r {
                Ok(t) => {
                    let entry = self@.transactions[tx_index@ as int];
                    &&& self@.has_transaction(tx_index@)
                    &&& t.0 == entry.to
                    &&& t.1@ == entry.value
                    &&& t.2@ == entry.data
                    &&& t.3 == entry.executed
                    &&& t.4@ == entry.num_confirmations
                },
                Err(e) => !self@.has_transaction(tx_index@) && e == MultiSigError::TxDoesNotExist,
            },
    {
        proof {
            use_type_invariant(self);
        }
        match self.ledger_index(tx_index) {
            Some(i) => {
                let entry = &self.transactions[i];
                Ok(
                    (
                        entry.to,
                        entry.value,
                        entry.data.clone(),
                        entry.executed,
                        U256::from_usize(entry.num_confirmations),
                    ),
                )
            },
            None => Err(MultiSigError::TxDoesNotExist),
        }
    }
    /// Sets or clears one entry of the confirmation matrix and moves the
    /// entry's count with it.
    fn set_confirmation(&mut self, index: usize, who: Address, approved: bool)
        requires
            old(self)@.has_transaction(index as nat),
            old(self)@.is_owner(who),
            !old(self)@.transactions[index as int].executed,
            approved != old(self)@.is_confirmed(index as nat, who),
        ensures
            final(self)@ == old(self)@.with_confirmation(index as nat, who, approved),
    {
        proof {
            use_type_invariant(&*self);
        }
        let mut transactions: Vec<Transaction> = Vec::new();
        std::mem::swap(&mut transactions, &mut self.transactions);
        let ghost before = transactions@;
        assert(ledger_view(before).len() == before.len());
        assert(ledger_view(before)[index as int] == before[index as int]@);
        let entry = &mut transactions[index];
        if approved {
            proof {
                lemma_push_keeps_distinct(entry.confirmed_by@, who);
                entry.confirmed_by@.unique_seq_to_set();
                entry.confirmed_by@.push(who).unique_seq_to_set();
            }
            entry.confirmed_by.push(who);
            entry.num_confirmations = entry.confirmed_by.len();
        } else {
            match position(&entry.confirmed_by, who) {
                Some(at) => {
                    proof {
                        lemma_remove_keeps_distinct(entry.confirmed_by@, at as int);
                        entry.confirmed_by@.unique_seq_to_set();
                        entry.confirmed_by@.remove(at as int).unique_seq_to_set();
                    }
                    entry.confirmed_by.remove(at);
                    entry.num_confirmations = entry.confirmed_by.len();
                },
                None => {},
            }
        }
        proof {
            let after = transactions@;
            let changed = before[index as int]@.with_confirmation(who, approved);
            assert(after.len() == before.len());
            assert(after[index as int]@ == changed);
            assert forall|i: int| 0 <= i < after.len() && i != index implies after[i]
                == before[i] by {}
            assert(ledger_view(after) =~= ledger_view(before).update(index as int, changed));
        }
        self.transactions = transactions;
    }

    /// Records the approval of the transaction at `tx_index` by `sender`,
    /// who must be an owner that has not approved it yet; the transaction
    /// must not have been executed.
    pub fn confirm_transaction(&mut self, sender: Address, tx_index: U256) -> (r: Result<
        Event,
        MultiSigError,
    >)
        ensures
            final(self)@.valid(),
            match old(self)@.confirm(sender, tx_index@) {
                Ok(next) => {
                    &&& final(self)@ == next
                    &&& r matches Ok(event)
                    &&& event@ == (EventView::ConfirmTransaction { owner: sender, tx_index: tx_index@ })
                },
                Err(e) => *final(self) == *old(self) && r == Err::<Event, MultiSigError>(e),
            },
    {
        proof {
            use_type_invariant(&*self);
        }
        if !self.is_owner(sender) {
            return Err(MultiSigError::NotOwner);
        }
        let index = match self.ledger_index(tx_index) {
            Some(index) => index,
            None => {
                return Err(MultiSigError::TxDoesNotExist);
            },
        };
        assert(self@.transactions[index as int] == self.transactions[index as int]@);
        if self.transactions[index].executed {
            return Err(MultiSigError::TxAlreadyExecuted);
        }
        if position(&self.transactions[index].confirmed_by, sender).is_some() {
            return Err(MultiSigError::TxAlreadyConfirmed);
        }
        self.set_confirmation(index, sender, true);
        proof {
            use_type_invariant(&*self);
        }
        Ok(Event::ConfirmTransaction { owner: sender, tx_index })
    }

    /// Withdraws the approval that `sender`, an owner, gave to the
    /// transaction at `tx_index`; the transaction must not have been
    /// executed.
    pub fn revoke_confirmation(&mut self, sender: Address, tx_index: U256) -> (r: Result<
        Event,
        MultiSigError,
    >)
        ensures
            final(self)@.valid(),
            match old(self)@.revoke(sender, tx_index@) {
                Ok(next) => {
                    &&& final(self)@ == next
                    &&& r matches Ok(event)
                    &&& event@ == (EventView::RevokeConfirmation { owner: sender, tx_index: tx_index@ })
                },
                Err(e) => *final(self) == *old(self) && r == Err::<Event, MultiSigError>(e),
            },
    {
        proof {
            use_type_invariant(&*self);
        }
        if !self.is_owner(sender) {
            return Err(MultiSigError::NotOwner);
        }
        let index = match self.ledger_index(tx_index) {
            Some(index) => index,
            None => {
                return Err(MultiSigError::TxDoesNotExist);
            },
        };
        assert(self@.transactions[index as int] == self.transactions[index as int]@);
        if self.transactions[index].executed {
            return Err(MultiSigError::TxAlreadyExecuted);
        }
        if position(&self.transactions[index].confirmed_by, sender).is_none() {
            return Err(MultiSigError::TxNotConfirmed);
        }
        self.set_confirmation(index, sender, false);
        proof {
            use_type_invariant(&*self);
        }
        Ok(Event::RevokeConfirmation { owner: sender, tx_index })
    }
    /// Sets the owners and the threshold. This works once: on a wallet that
    /// has owners it is refused whatever the arguments. The conditions are
    /// tested in the order of the errors below.
    pub fn initialize(&mut self, owners: Vec<Address>, num_confirmations_required: U256) -> (r:
        Result<(), MultiSigError>)
        ensures
            final(self)@.valid(),
            match old(self)@.initialize(owners@, num_confirmations_required@) {
                Ok(next) => final(self)@ == next && r is Ok,
                Err(e) => *final(self) == *old(self) && r == Err::<(), MultiSigError>(e),
            },
    {
        proof {
            use_type_invariant(&*self);
        }
        if self.owners.len() > 0 {
            return Err(MultiSigError::AlreadyInitialized);
        }
        if owners.len() == 0 {
            return Err(MultiSigError::ZeroOwners);
        }
        let required = match num_confirmations_required.to_usize() {
            Some(required) => required,
            None => {
                return Err(MultiSigError::InvalidConfirmationNumber);
            },
        };
        if required == 0 || required > owners.len() {
            return Err(MultiSigError::InvalidConfirmationNumber);
        }
        if any_zero(&owners) {
            return Err(MultiSigError::InvalidOwner);
        }
        if !all_distinct(&owners) {
            return Err(MultiSigError::OwnerNotUnique);
        }
        let mut transactions: Vec<Transaction> = Vec::new();
        std::mem::swap(&mut transactions, &mut self.transactions);
        proof {
            assert forall|i: int| 0 <= i < transactions.len() implies (
            #[trigger] ledger_view(transactions@)[i]).valid_for(owners@) by {
                let before = old(self)@.transactions[i];
                assert(before.valid_for(old(self)@.owners));
                assert(old(self)@.owners.to_set() =~= Set::<Address>::empty());
                assert(before.confirmed_by =~= Set::<Address>::empty());
            }
        }
        *self = Counter { owners, num_confirmations_required: required, transactions };
        Ok(())
    }

    /// Appends a transaction to the ledger, pending and confirmed by nobody,
    /// and returns its position together with the event that reports it.
    /// Anybody may submit.
    pub fn submit_transaction(&mut self, sender: Address, to: Address, value: U256, data: Vec<u8>) -> (r:
        (U256, Event))
        ensures
            final(self)@.valid(),
            final(self)@ == old(self)@.submit(to, value@, data@),
            r.0@ == old(self)@.transactions.len(),
            r.1@ == (EventView::SubmitTransaction {
                owner: sender,
                tx_index: old(self)@.transactions.len(),
                to,
                value: value@,
                data: data@,
            }),
    {
        proof {
            use_type_invariant(&*self);
        }
        let tx_index = U256::from_usize(self.transactions.len());
        let entry = Transaction {
            to,
            value,
            data: data.clone(),
            executed: false,
            num_confirmations: 0,
            confirmed_by: Vec::new(),
        };
        let mut transactions: Vec<Transaction> = Vec::new();
        std::mem::swap(&mut transactions, &mut self.transactions);
        proof {
            assert(entry@ == TransactionView::submitted(to, value@, data@)) by {
                assert(entry.confirmed_by@.to_set() =~= Set::<Address>::empty());
            }
            assert(ledger_view(transactions@.push(entry)) =~= ledger_view(transactions@).push(
                entry@,
            ));
        }
        transactions.push(entry);
        self.transactions = transactions;
        (tx_index, Event::SubmitTransaction { owner: sender, tx_index, to, value, data })
    }

    /// Commits the transaction at `tx_index` to dispatch, once its
    /// confirmations have reached the threshold. The transaction is marked
    /// executed here, before the call is made: the caller makes the call that
    /// is returned and reports how it went with [`PendingCall::settle`].
    /// Anybody may ask for the execution.
    pub fn execute_transaction(&mut self, sender: Address, tx_index: U256) -> (r: Result<
        PendingCall,
        MultiSigError,
    >)
        ensures
            final(self)@.valid(),
            match old(self)@.execute(tx_index@) {
                Ok(next) => {
                    let entry = old(self)@.transactions[tx_index@ as int];
                    &&& final(self)@ == next
                    &&& r matches Ok(call)
                    &&& call@ == (PendingCallView {
                        sender,
                        tx_index: tx_index@,
                        to: entry.to,
                        value: entry.value,
                        data: entry.data,
                    })
                },
                Err(e) => *final(self) == *old(self) && r == Err::<PendingCall, MultiSigError>(e),
            },
    {
        proof {
            use_type_invariant(&*self);
        }
        let index = match self.ledger_index(tx_index) {
            Some(index) => index,
            None => {
                return Err(MultiSigError::TxDoesNotExist);
            },
        };
        assert(self@.transactions[index as int] == self.transactions[index as int]@);
        if self.transactions[index].executed {
            return Err(MultiSigError::TxAlreadyExecuted);
        }
        if self.transactions[index].num_confirmations < self.num_confirmations_required {
            return Err(MultiSigError::ConfirmationNumberNotEnough);
        }
        let mut transactions: Vec<Transaction> = Vec::new();
        std::mem::swap(&mut transactions, &mut self.transactions);
        let ghost before = transactions@;
        let entry = &mut transactions[index];
        entry.executed = true;
        let call = PendingCall {
            sender,
            tx_index,
            to: entry.to,
            value: entry.value,
            data: entry.data.clone(),
        };
        proof {
            let after = transactions@;
            let changed = TransactionView { executed: true, ..before[index as int]@ };
            assert(after[index as int]@ == changed);
            assert forall|i: int| 0 <= i < after.len() && i != index implies after[i]
                == before[i] by {}
            assert(ledger_view(after) =~= ledger_view(before).update(index as int, changed));
        }
        self.transactions = transactions;
        Ok(call)
    }

    /// The event that reports an amount sent to the wallet without a call:
    /// who sent it, how much, and the balance that the host reports after it.
    pub fn deposit(&self, sender: Address, amount: U256, balance: U256) -> (r: Event)
        ensures
            self@.valid(),
            r == (Event::Deposit { sender, amount, balance }),
    {
        proof {
            use_type_invariant(self);
        }
        Event::Deposit { sender, amount, balance }
    }
}

} // verus!
