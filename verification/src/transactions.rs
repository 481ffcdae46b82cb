use vstd::prelude::*;
use vstd::string::StringExecFns;

use crate::clients::Client;
use crate::fixed_number::FixedNumber;

verus! {

/// The five kinds of ledger event.
#[derive(Clone, Copy, PartialEq, Eq, Structural, Debug)]
pub enum TransactionType {
    Deposit,
    Withdrawal,
    Dispute,
    Resolve,
    Chargeback,
}

/// The variant a type label names, when it names one; labels are
/// case-sensitive words.
pub open spec fn spec_label_type(s: Seq<char>) -> Option<TransactionType> {
    if s == "deposit"@ {
        Option::Some(TransactionType::Deposit)
    } else if s == "withdrawal"@ {
        Option::Some(TransactionType::Withdrawal)
    } else if s == "dispute"@ {
        Option::Some(TransactionType::Dispute)
    } else if s == "resolve"@ {
        Option::Some(TransactionType::Resolve)
    } else if s == "chargeback"@ {
        Option::Some(TransactionType::Chargeback)
    } else {
        Option::None
    }
}

impl TransactionType {
    /// Decodes a type label; a label that names no variant is refused with
    /// the invalid-type message, and the event it came with is to be skipped.
    pub fn from_str(label: &String) -> (r: Result<TransactionType, String>)
        ensures
            match r {
                Ok(t) => spec_label_type(label@) == Option::Some(t),
                Err(e) => spec_label_type(label@) is None && e@
                    == "The transaction type is invalid"@,
            },
    {
        let deposit = String::from_str("deposit");
        let withdrawal = String::from_str("withdrawal");
        let dispute = String::from_str("dispute");
        let resolve = String::from_str("resolve");
        let chargeback = String::from_str("chargeback");
        if *label == deposit {
            Ok(TransactionType::Deposit)
        } else if *label == withdrawal {
            Ok(TransactionType::Withdrawal)
        } else if *label == dispute {
            Ok(TransactionType::Dispute)
        } else if *label == resolve {
            Ok(TransactionType::Resolve)
        } else if *label == chargeback {
            Ok(TransactionType::Chargeback)
        } else {
            Err(String::from_str("The transaction type is invalid"))
        }
    }
}

/// One decoded ledger event.
///
/// `amount` is present only on deposits and withdrawals; `disputed` is the
/// one field that changes after construction, and only on stored deposits
/// and withdrawals while a dispute against them is open.
#[derive(Clone, Copy, PartialEq, Debug)]
pub struct Transaction {
    pub id: u32,
    pub client_id: u16,
    pub amount: Option<FixedNumber>,
    pub transaction_type: TransactionType,
    pub disputed: bool,
}

impl Transaction {
    /// True when the amount, if any, carries the ledger's four decimal
    /// digits.
    pub open spec fn wf(self) -> bool {
        self.amount matches Some(a) ==> a.wf()
    }

    /// True when the transaction carries an amount whose value is strictly
    /// positive.
    pub open spec fn has_positive_amount(self) -> bool {
        self.amount matches Some(a) && a.value > 0
    }

    /// The scaled value of the amount; meaningful only when `amount` is
    /// present.
    pub open spec fn amount_value(self) -> int {
        self.amount->Some_0.value as int
    }

    /// Applies the event to `client`, dispatching on the transaction type.
    pub fn calculate_transaction(&self, client: &mut Client)
        requires
            old(client).wf(),
            self.wf(),
            crate::clients::apply_fits(old(client)@, *self),
        ensures
            final(client)@ == crate::clients::spec_apply(old(client)@, *self),
            final(client).wf(),
    {
        match self.transaction_type {
            TransactionType::Deposit => client.deposit(self),
            TransactionType::Withdrawal => client.withdraw(self),
            TransactionType::Dispute => client.dispute(self),
            TransactionType::Resolve => client.resolve(self),
            TransactionType::Chargeback => client.chargeback(self),
        }
    }

    /// Opens a dispute against this stored transaction.
    pub fn mark_disputed(&mut self)
        ensures
            *final(self) == (Transaction { disputed: true, ..*old(self) }),
    {
        self.disputed = true;
    }

    /// Closes the dispute against this stored transaction.
    pub fn mark_resolved(&mut self)
        ensures
            *final(self) == (Transaction { disputed: false, ..*old(self) }),
    {
        self.disputed = false;
    }
}

} // verus!
