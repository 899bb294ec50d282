//! What holds of every wallet, whatever is asked of it.

use crate::address::Address;
use crate::error::MultiSigError;
use crate::model::{Operation, WalletView};
use vstd::prelude::*;

verus! {

/// An empty wallet is valid.
pub proof fn law_empty_is_valid()
    ensures
        WalletView::empty().valid(),
{
}

/// A request, granted or refused, leaves a valid wallet valid.
pub proof fn law_request_keeps_valid(s: WalletView, op: Operation)
    requires
        s.valid(),
    ensures
        s.after(op).valid(),
{
    let t = s.after(op);
    match op {
        Operation::Initialize { owners, required } => {
            if s.initialize(owners, required) is Ok {
                assert(s.owners.to_set() =~= Set::<Address>::empty());
                assert forall|i: int| 0 <= i < t.transactions.len() implies (
                #[trigger] t.transactions[i]).valid_for(t.owners) by {
                    assert(s.transactions[i].valid_for(s.owners));
                    assert(s.transactions[i].confirmed_by =~= Set::<Address>::empty());
                }
            }
        },
        Operation::Submit { to, value, data } => {
            assert forall|i: int| 0 <= i < t.transactions.len() implies (
            #[trigger] t.transactions[i]).valid_for(t.owners) by {
                if i < s.transactions.len() {
                    assert(s.transactions[i].valid_for(s.owners));
                }
            }
        },
        Operation::Confirm { sender, index } => {
            if s.confirm(sender, index) is Ok {
                assert forall|i: int| 0 <= i < t.transactions.len() implies (
                #[trigger] t.transactions[i]).valid_for(t.owners) by {
                    assert(s.transactions[i].valid_for(s.owners));
                }
            }
        },
        Operation::Revoke { sender, index } => {
            if s.revoke(sender, index) is Ok {
                assert forall|i: int| 0 <= i < t.transactions.len() implies (
                #[trigger] t.transactions[i]).valid_for(t.owners) by {
                    assert(s.transactions[i].valid_for(s.owners));
                }
            }
        },
        Operation::Execute { index } => {
            if s.execute(index) is Ok {
                assert forall|i: int| 0 <= i < t.transactions.len() implies (
                #[trigger] t.transactions[i]).valid_for(t.owners) by {
                    assert(s.transactions[i].valid_for(s.owners));
                }
            }
        },
    }
}

/// Validity is an invariant: a valid wallet is valid after any series of
/// requests.
pub proof fn law_valid_is_invariant(s: WalletView, ops: Seq<Operation>)
    requires
        s.valid(),
    ensures
        s.after_all(ops).valid(),
    decreases ops.len(),
{
    if ops.len() > 0 {
        law_valid_is_invariant(s, ops.drop_last());
        law_request_keeps_valid(s.after_all(ops.drop_last()), ops.last());
    }
}

/// In a valid wallet the recorded count of a transaction is the number of
/// owners with a true entry in its row of the confirmation matrix, and so at
/// most the number of owners.
pub proof fn law_count_is_row_cardinality(s: WalletView, index: nat)
    requires
        s.valid(),
        s.has_transaction(index),
    ensures
        s.transactions[index as int].num_confirmations == s.confirming_owners(index).len(),
        s.transactions[index as int].num_confirmations <= s.owners.len(),
{
    let entry = s.transactions[index as int];
    assert(entry.valid_for(s.owners));
    assert(s.confirming_owners(index) =~= entry.confirmed_by);
    vstd::seq_lib::seq_to_set_is_finite(s.owners);
    vstd::set_lib::lemma_len_subset(entry.confirmed_by, s.owners.to_set());
    s.owners.unique_seq_to_set();
}

/// A request never shortens the ledger nor touches what an entry asks for,
/// never takes back an execution, and never changes the owners or the
/// threshold of a wallet that has owners.
pub proof fn law_request_keeps_history(s: WalletView, op: Operation)
    ensures
        s.after(op).transactions.len() >= s.transactions.len(),
        forall|i: int|
            #![trigger s.after(op).transactions[i]]
            0 <= i < s.transactions.len() ==> {
                let before = s.transactions[i];
                let after = s.after(op).transactions[i];
                &&& after.to == before.to
                &&& after.value == before.value
                &&& after.data == before.data
                &&& before.executed ==> after.executed
            },
        s.initialized() ==> s.after(op).owners == s.owners && s.after(op).required == s.required,
{
}

/// The same, after any series of requests: the ledger only grows, an entry
/// keeps its target, amount and payload, an executed entry stays executed,
/// and the owners and the threshold, once set, stay as they are.
pub proof fn law_history_is_kept(s: WalletView, ops: Seq<Operation>)
    ensures
        s.after_all(ops).transactions.len() >= s.transactions.len(),
        forall|i: int|
            #![trigger s.after_all(ops).transactions[i]]
            0 <= i < s.transactions.len() ==> {
                let before = s.transactions[i];
                let after = s.after_all(ops).transactions[i];
                &&& after.to == before.to
                &&& after.value == before.value
                &&& after.data == before.data
                &&& before.executed ==> after.executed
            },
        s.initialized() ==> s.after_all(ops).owners == s.owners && s.after_all(ops).required
            == s.required,
    decreases ops.len(),
{
    if ops.len() > 0 {
        let mid = s.after_all(ops.drop_last());
        law_history_is_kept(s, ops.drop_last());
        law_request_keeps_history(mid, ops.last());
        assert forall|i: int| 0 <= i < s.transactions.len() implies {
            let before = s.transactions[i];
            let after = #[trigger] s.after_all(ops).transactions[i];
            &&& after.to == before.to
            &&& after.value == before.value
            &&& after.data == before.data
            &&& before.executed ==> after.executed
        } by {
            let between = mid.transactions[i];
            let after = mid.after(ops.last()).transactions[i];
        }
    }
}

/// Execution is final: once a transaction is executed, then after any
/// series of requests it is still executed, and a confirmation, a
/// revocation or an execution of it is refused, whoever asks.
pub proof fn law_executed_is_final(s: WalletView, index: nat, ops: Seq<Operation>, sender: Address)
    requires
        s.has_transaction(index),
        s.transactions[index as int].executed,
    ensures
        s.after_all(ops).has_transaction(index),
        s.after_all(ops).transactions[index as int].executed,
        s.after_all(ops).confirm(sender, index) is Err,
        s.after_all(ops).revoke(sender, index) is Err,
        s.after_all(ops).execute(index) == Err::<WalletView, MultiSigError>(
            MultiSigError::TxAlreadyExecuted,
        ),
        s.after_all(ops).is_owner(sender) ==> {
            &&& s.after_all(ops).confirm(sender, index) == Err::<WalletView, MultiSigError>(
                MultiSigError::TxAlreadyExecuted,
            )
            &&& s.after_all(ops).revoke(sender, index) == Err::<WalletView, MultiSigError>(
                MultiSigError::TxAlreadyExecuted,
            )
        },
{
    law_history_is_kept(s, ops);
    let later = s.after_all(ops).transactions[index as int];
}

/// A confirmation followed by its revocation brings the wallet back to
/// where it was: the count of the transaction is what it was before the
/// confirmation, and the owner's entry in the matrix is false again.
pub proof fn law_confirm_then_revoke(s: WalletView, owner: Address, index: nat)
    requires
        s.confirm(owner, index) is Ok,
    ensures
        ({
            let confirmed = s.confirm(owner, index)->Ok_0;
            &&& confirmed.is_confirmed(index, owner)
            &&& confirmed.transactions[index as int].num_confirmations
                == s.transactions[index as int].num_confirmations + 1
            &&& confirmed.revoke(owner, index) == Ok::<WalletView, MultiSigError>(s)
            &&& !s.is_confirmed(index, owner)
        }),
{
    let confirmed = s.confirm(owner, index)->Ok_0;
    let revoked = confirmed.with_confirmation(index, owner, false);
    let entry = s.transactions[index as int];
    assert(revoked.transactions[index as int].confirmed_by =~= entry.confirmed_by);
    assert(revoked.transactions[index as int] == entry);
    assert(revoked.transactions =~= s.transactions);
}

/// An execution is granted only at or above the threshold: with one
/// confirmation less than the threshold a pending transaction is refused
/// for want of confirmations, and with exactly the threshold it is granted.
pub proof fn law_execute_needs_quorum(s: WalletView, index: nat)
    ensures
        s.execute(index) is Ok ==> s.transactions[index as int].num_confirmations >= s.required,
        s.execute(index) is Ok ==> s.execute(index)->Ok_0.transactions[index as int].executed,
        s.has_transaction(index) && !s.transactions[index as int].executed
            && s.transactions[index as int].num_confirmations + 1 == s.required ==> s.execute(index)
            == Err::<WalletView, MultiSigError>(MultiSigError::ConfirmationNumberNotEnough),
        s.has_transaction(index) && !s.transactions[index as int].executed
            && s.transactions[index as int].num_confirmations == s.required ==> s.execute(index)
            is Ok,
{
}

/// Owners are set once: after a granted initialization every further one is
/// refused as already done, whatever its arguments.
pub proof fn law_initialize_once(
    s: WalletView,
    owners: Seq<Address>,
    required: nat,
    other_owners: Seq<Address>,
    other_required: nat,
)
    requires
        s.initialize(owners, required) is Ok,
    ensures
        ({
            let set = s.initialize(owners, required)->Ok_0;
            &&& set.owners == owners
            &&& set.required == required
            &&& set.initialize(other_owners, other_required) == Err::<WalletView, MultiSigError>(
                MultiSigError::AlreadyInitialized,
            )
            &&& set.after(
                Operation::Initialize { owners: other_owners, required: other_required },
            ) == set
        }),
{
}

} // verus!
