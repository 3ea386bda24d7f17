//! Transaction errors and their rendered messages.  Each error type
//! carries plain data and a `message` method whose exact text is part of
//! the contract.

use vstd::prelude::*;

use crate::numtext::{dec_rep, push_dec_u64};
use crate::text::str_eq;

verus! {

/// A currency-specific failure: which currency, and what went wrong.
pub struct SpecificTxError {
    /// What went wrong.
    pub details: String,
    /// The currency concerned.
    pub currency: String,
}

impl SpecificTxError {
    /// The rendered message: `<currency>: <details>`.
    pub open spec fn spec_message(self) -> Seq<char> {
        self.currency@ + ": "@ + self.details@
    }

    /// Render the message.
    pub fn message(&self) -> (r: String)
        ensures
            r@ == self.spec_message(),
    {
        let mut s = String::new();
        s.append(self.currency.as_str());
        s.append(": ");
        s.append(self.details.as_str());
        proof {
            assert(s@ =~= self.spec_message());
        }
        s
    }
}

/// A failure carrying an amount of some currency.
pub struct AmountError {
    /// The amount concerned.
    pub amount: u64,
    /// The currency concerned.
    pub currency: String,
}

impl AmountError {
    /// The rendered message: `<currency>: <amount>`.
    pub open spec fn spec_message(self) -> Seq<char> {
        self.currency@ + ": "@ + dec_rep(self.amount as nat)
    }

    /// Render the message.
    pub fn message(&self) -> (r: String)
        ensures
            r@ == self.spec_message(),
    {
        let mut s = String::new();
        s.append(self.currency.as_str());
        s.append(": ");
        push_dec_u64(&mut s, self.amount);
        proof {
            assert(s@ =~= self.spec_message());
        }
        s
    }
}

/// A failure of a wallet operation.
pub enum WalletError {
    /// The wallet is locked.
    Locked,
    /// No such wallet exists.
    NotFound,
    /// The wallet holds less than the operation needs.
    InsufficientBalance {
        /// What the operation needs.
        expected: u64,
        /// What the wallet holds.
        actual: u64,
    },
}

impl WalletError {
    /// The rendered message.
    pub open spec fn spec_message(self) -> Seq<char> {
        match self {
            WalletError::Locked => "Wallet is locked"@,
            WalletError::NotFound => "Wallet not found"@,
            WalletError::InsufficientBalance { expected, actual } =>
                "Insufficient balance in wallet, expected: "@ + dec_rep(expected as nat)
                + ", actual: "@ + dec_rep(actual as nat),
        }
    }

    /// Render the message.
    pub fn message(&self) -> (r: String)
        ensures
            r@ == self.spec_message(),
    {
        match self {
            WalletError::Locked => String::from_str("Wallet is locked"),
            WalletError::NotFound => String::from_str("Wallet not found"),
            WalletError::InsufficientBalance { expected, actual } => {
                let mut s = String::new();
                s.append("Insufficient balance in wallet, expected: ");
                push_dec_u64(&mut s, *expected);
                s.append(", actual: ");
                push_dec_u64(&mut s, *actual);
                proof {
                    assert(s@ =~= self.spec_message());
                }
                s
            },
        }
    }
}

/// The classic transaction error hierarchy.
pub enum ClassicTxError {
    /// The transaction has an invalid format.
    InvalidFormat,
    /// The funds do not cover the transaction.
    InsufficientFunds,
    /// The transaction is unauthorized.
    Unauthorized,
    /// A currency-specific failure.
    SpecificTxError(SpecificTxError),
    /// A failure carrying an amount of some currency.
    Amount(AmountError),
}

impl ClassicTxError {
    /// The rendered message.
    pub open spec fn spec_message(self) -> Seq<char> {
        match self {
            ClassicTxError::InvalidFormat => "Transaction has an invalid format"@,
            ClassicTxError::InsufficientFunds => "Insufficient funds for transaction"@,
            ClassicTxError::Unauthorized => "Transaction is unauthorized"@,
            ClassicTxError::SpecificTxError(e) => "Specific transaction error: "@
                + e.spec_message(),
            ClassicTxError::Amount(e) => e.spec_message(),
        }
    }

    /// Render the message.
    pub fn message(&self) -> (r: String)
        ensures
            r@ == self.spec_message(),
    {
        match self {
            ClassicTxError::InvalidFormat => String::from_str("Transaction has an invalid format"),
            ClassicTxError::InsufficientFunds => String::from_str(
                "Insufficient funds for transaction",
            ),
            ClassicTxError::Unauthorized => String::from_str("Transaction is unauthorized"),
            ClassicTxError::SpecificTxError(e) => {
                let mut s = String::from_str("Specific transaction error: ");
                let inner = e.message();
                s.append(inner.as_str());
                proof {
                    assert(s@ =~= self.spec_message());
                }
                s
            },
            ClassicTxError::Amount(e) => e.message(),
        }
    }
}

/// The modern transaction error hierarchy.
pub enum ModernTxError {
    /// The transaction has an invalid format.
    InvalidFormat,
    /// The funds do not cover the transaction.
    InsufficientFunds,
    /// The transaction is unauthorized.
    Unauthorized,
    /// A currency-specific failure.
    SpecificTxError(SpecificTxError),
    /// The address provided is invalid.
    InvalidAddress,
    /// A failure carrying an amount of some currency.
    Amount(AmountError),
    /// A failure of a wallet operation.
    Wallet(WalletError),
}

impl ModernTxError {
    /// The rendered message.
    pub open spec fn spec_message(self) -> Seq<char> {
        match self {
            ModernTxError::InvalidFormat => "Transaction has an invalid format"@,
            ModernTxError::InsufficientFunds => "Insufficient funds for transaction"@,
            ModernTxError::Unauthorized => "Transaction is unauthorized"@,
            ModernTxError::SpecificTxError(e) => "Specific transaction error: "@
                + e.spec_message(),
            ModernTxError::InvalidAddress => "Invalid address provided"@,
            ModernTxError::Amount(e) => e.spec_message(),
            ModernTxError::Wallet(e) => e.spec_message(),
        }
    }

    /// Render the message.
    pub fn message(&self) -> (r: String)
        ensures
            r@ == self.spec_message(),
    {
        match self {
            ModernTxError::InvalidFormat => String::from_str("Transaction has an invalid format"),
            ModernTxError::InsufficientFunds => String::from_str(
                "Insufficient funds for transaction",
            ),
            ModernTxError::Unauthorized => String::from_str("Transaction is unauthorized"),
            ModernTxError::SpecificTxError(e) => {
                let mut s = String::from_str("Specific transaction error: ");
                let inner = e.message();
                s.append(inner.as_str());
                proof {
                    assert(s@ =~= self.spec_message());
                }
                s
            },
            ModernTxError::InvalidAddress => String::from_str("Invalid address provided"),
            ModernTxError::Amount(e) => e.message(),
            ModernTxError::Wallet(e) => e.message(),
        }
    }
}

/// Simulate sending a currency-specific transaction.  The simulation
/// always fails: anything but `btc` is unsupported, and a `btc`
/// transaction fails with a currency mismatch.
pub fn send_specific_tx(tx_details: &str) -> (r: Result<(), SpecificTxError>)
    ensures
        match r {
            Ok(_) => false,
            Err(e) => if tx_details@ == "btc"@ {
                e.details@ == tx_details@ && e.currency@ == "USDT"@
            } else {
                e.details@ == "Only BTC transactions are supported"@ && e.currency@ == "BTC"@
            },
        },
{
    if !str_eq(tx_details, "btc") {
        return Err(SpecificTxError {
            details: String::from_str("Only BTC transactions are supported"),
            currency: String::from_str("BTC"),
        });
    }
    Err(SpecificTxError {
        details: tx_details.to_owned(),
        currency: String::from_str("USDT"),
    })
}

/// A failing classic transaction: ten of a small currency.
pub fn task_1_failing_fn_classic() -> (r: Result<(), ClassicTxError>)
    ensures
        match r {
            Err(ClassicTxError::Amount(a)) => a.amount == 10 && a.currency@ == "btc"@,
            _ => false,
        },
{
    Err(ClassicTxError::Amount(AmountError { amount: 10, currency: String::from_str("btc") }))
}

/// A failing modern transaction: twenty of a small currency.
pub fn task_1_failing_fn_modern() -> (r: Result<(), ModernTxError>)
    ensures
        match r {
            Err(ModernTxError::Amount(a)) => a.amount == 20 && a.currency@ == "eth"@,
            _ => false,
        },
{
    Err(ModernTxError::Amount(AmountError { amount: 20, currency: String::from_str("eth") }))
}

/// The classic error walk: it ends in the currency-specific failure
/// that [`send_specific_tx`] reports.
pub fn display_classic_tx_error() -> (r: Result<(), ClassicTxError>)
    ensures
        match r {
            Err(ClassicTxError::SpecificTxError(e)) => e.details@
                == "Only BTC transactions are supported"@ && e.currency@ == "BTC"@,
            _ => false,
        },
{
    match send_specific_tx("tx details") {
        Ok(_) => Ok(()),
        Err(e) => {
            proof {
                reveal_strlit("tx details");
                reveal_strlit("btc");
                assert("tx details"@.len() != "btc"@.len());
            }
            Err(ClassicTxError::SpecificTxError(e))
        },
    }
}

/// The modern error walk: it ends in the currency-specific failure
/// that [`send_specific_tx`] reports.
pub fn display_modern_tx_error() -> (r: Result<(), ModernTxError>)
    ensures
        match r {
            Err(ModernTxError::SpecificTxError(e)) => e.details@
                == "Only BTC transactions are supported"@ && e.currency@ == "BTC"@,
            _ => false,
        },
{
    match send_specific_tx("tx details") {
        Ok(_) => Ok(()),
        Err(e) => {
            proof {
                reveal_strlit("tx details");
                reveal_strlit("btc");
                assert("tx details"@.len() != "btc"@.len());
            }
            Err(ModernTxError::SpecificTxError(e))
        },
    }
}

/// How each modern error would be handled, as a message.
pub open spec fn spec_handling(e: ModernTxError) -> Seq<char> {
    match e {
        ModernTxError::InvalidFormat => "Handle invalid format error"@,
        ModernTxError::InsufficientFunds => "Handle insufficient funds error"@,
        ModernTxError::Unauthorized => "Handle unauthorized error"@,
        ModernTxError::SpecificTxError(se) => "Handle specific transaction error: "@
            + se.spec_message(),
        ModernTxError::InvalidAddress => "Handle invalid address error"@,
        ModernTxError::Amount(a) => "Handle amount error: "@ + a.spec_message(),
        ModernTxError::Wallet(w) => "Handle wallet error: "@ + w.spec_message(),
    }
}

/// Pick the handling message of a modern error.
pub fn error_match_showcase(err: &ModernTxError) -> (r: String)
    ensures
        r@ == spec_handling(*err),
{
    match err {
        ModernTxError::InvalidFormat => String::from_str("Handle invalid format error"),
        ModernTxError::InsufficientFunds => String::from_str("Handle insufficient funds error"),
        ModernTxError::Unauthorized => String::from_str("Handle unauthorized error"),
        ModernTxError::SpecificTxError(se) => {
            let mut s = String::from_str("Handle specific transaction error: ");
            let inner = se.message();
            s.append(inner.as_str());
            proof {
                assert(s@ =~= spec_handling(*err));
            }
            s
        },
        ModernTxError::InvalidAddress => String::from_str("Handle invalid address error"),
        ModernTxError::Amount(a) => {
            let mut s = String::from_str("Handle amount error: ");
            let inner = a.message();
            s.append(inner.as_str());
            proof {
                assert(s@ =~= spec_handling(*err));
            }
            s
        },
        ModernTxError::Wallet(w) => {
            let mut s = String::from_str("Handle wallet error: ");
            let inner = w.message();
            s.append(inner.as_str());
            proof {
                assert(s@ =~= spec_handling(*err));
            }
            s
        },
    }
}

} // verus!
