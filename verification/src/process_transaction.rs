use vstd::prelude::*;
use crate::command_bus::{Command, Handler};
use crate::decimal::{amount_digits, amount_string};
use crate::transaction::Transaction;

verus! {

/// The command to run one transaction through handling.
pub struct ProcessTransaction {
    pub transaction: Transaction,
}

impl Command for ProcessTransaction {
    type Output = String;
}

/// The status message reported for a processed transaction.
pub open spec fn processed_message(tx: Transaction) -> Seq<char> {
    "Transaction processed: amount = "@ + amount_digits(tx.amount as nat) + ", currency = "@
        + tx.currency@
}

/// Handles [`ProcessTransaction`] by reporting a status message naming the
/// transaction's amount and currency.
pub struct ProcessTransactionHandler;

impl Handler<ProcessTransaction> for ProcessTransactionHandler {
    open spec fn post(&self, cmd: ProcessTransaction, out: String) -> bool {
        out@ == processed_message(cmd.transaction)
    }

    fn handle(&self, cmd: ProcessTransaction) -> (out: String)
        ensures
            self.post(cmd, out),
    {
        let tx = cmd.transaction;
        let mut out: String = "Transaction processed: amount = ".to_owned();
        let amount = amount_string(tx.amount);
        out.append(amount.as_str());
        out.append(", currency = ");
        out.append(tx.currency.as_str());
        proof {
            assert(out@ =~= processed_message(tx));
        }
        out
    }
}

} // verus!
