//! Coins and their operations.  Every coin names a chain, a symbol and
//! a denomination exponent; amounts are held in the smallest unit and
//! rendered exactly, since every denomination is a power of ten.  The
//! rendered transaction lines are part of each method's contract.

use vstd::prelude::*;

use crate::numtext::{amount_rep, pow10, pow10_u64, push_amount};

verus! {

/// A coin: a chain name, a ticker symbol, and a denomination exponent
/// that says how many smallest units make one coin.
pub trait Coin {
    /// The denomination exponent.
    spec fn spec_denom_pow(&self) -> nat;

    /// The ticker symbol.
    spec fn spec_symbol(&self) -> Seq<char>;

    /// The chain name.
    spec fn spec_chain(&self) -> Seq<char>;

    /// The denomination exponent as a machine number.
    fn denom_pow(&self) -> (r: u8)
        ensures
            r as nat == self.spec_denom_pow(),
            r <= 19,
    ;

    /// The ticker symbol.
    fn symbol(&self) -> (r: String)
        ensures
            r@ == self.spec_symbol(),
    ;

    /// The line describing a send of `amount` smallest units to `to`.
    fn send(&self, to: &str, amount: u64) -> (r: String)
        ensures
            r@ == self.spec_chain() + " Transaction: Sending "@ + amount_rep(
                amount as nat,
                self.spec_denom_pow(),
            ) + " "@ + self.spec_symbol() + " to "@ + to@,
    ;

    /// How many smallest units make one coin.
    fn denom(&self) -> (r: u64)
        ensures
            r as nat == pow10(self.spec_denom_pow()),
    {
        pow10_u64(self.denom_pow())
    }
}

/// A coin whose chain supports staking.
pub trait SupportsStaking: Coin {
    /// The staking provider's name.
    spec fn spec_provider(&self) -> Seq<char>;

    /// The line describing a stake of `amount` smallest units.
    fn stake(&self, amount: u64) -> (r: String)
        ensures
            r@ == "Staking "@ + amount_rep(amount as nat, self.spec_denom_pow()) + " "@
                + self.spec_symbol() + " on "@ + self.spec_chain() + " network"@,
    ;

    /// The staking provider's name.
    fn staking_provider(&self) -> (r: String)
        ensures
            r@ == self.spec_provider(),
    ;
}

/// The Bitcoin chain.
#[derive(Debug, Clone)]
pub struct Bitcoin {
    /// How many unspent outputs the wallet tracks.
    pub utxo_count: u32,
    /// The node the wallet talks to.
    pub node_url: String,
    /// Which network the node serves.
    pub network: String,
}

impl Default for Bitcoin {
    /// A fresh wallet: no outputs, empty node and network names.
    fn default() -> (r: Bitcoin)
        ensures
            r.utxo_count == 0,
            r.node_url@ == Seq::<char>::empty(),
            r.network@ == Seq::<char>::empty(),
    {
        Bitcoin { utxo_count: 0, node_url: String::new(), network: String::new() }
    }
}

impl Coin for Bitcoin {
    open spec fn spec_denom_pow(&self) -> nat {
        9
    }

    open spec fn spec_symbol(&self) -> Seq<char> {
        "BTC"@
    }

    open spec fn spec_chain(&self) -> Seq<char> {
        "Bitcoin"@
    }

    fn denom_pow(&self) -> (r: u8) {
        9
    }

    fn symbol(&self) -> (r: String) {
        String::from_str("BTC")
    }

    fn send(&self, to: &str, amount: u64) -> (r: String) {
        let mut s = String::from_str("Bitcoin");
        s.append(" Transaction: Sending ");
        push_amount(&mut s, amount, 9);
        s.append(" ");
        s.append("BTC");
        s.append(" to ");
        s.append(to);
        proof {
            assert(s@ =~= self.spec_chain() + " Transaction: Sending "@ + amount_rep(
                amount as nat,
                self.spec_denom_pow(),
            ) + " "@ + self.spec_symbol() + " to "@ + to@);
        }
        s
    }
}

/// The Ethereum chain.
#[derive(Debug, Clone)]
pub struct Ethereum {
    /// The node the wallet talks to.
    pub node_url: String,
    /// Which network the node serves.
    pub network: String,
    /// Whether the node keeps full history.
    pub is_archive: bool,
}

impl Default for Ethereum {
    /// A fresh wallet: empty node and network names, no archive.
    fn default() -> (r: Ethereum)
        ensures
            r.node_url@ == Seq::<char>::empty(),
            r.network@ == Seq::<char>::empty(),
            !r.is_archive,
    {
        Ethereum { node_url: String::new(), network: String::new(), is_archive: false }
    }
}

impl Coin for Ethereum {
    open spec fn spec_denom_pow(&self) -> nat {
        18
    }

    open spec fn spec_symbol(&self) -> Seq<char> {
        "ETH"@
    }

    open spec fn spec_chain(&self) -> Seq<char> {
        "Ethereum"@
    }

    fn denom_pow(&self) -> (r: u8) {
        18
    }

    fn symbol(&self) -> (r: String) {
        String::from_str("ETH")
    }

    fn send(&self, to: &str, amount: u64) -> (r: String) {
        let mut s = String::from_str("Ethereum");
        s.append(" Transaction: Sending ");
        push_amount(&mut s, amount, 18);
        s.append(" ");
        s.append("ETH");
        s.append(" to ");
        s.append(to);
        proof {
            assert(s@ =~= self.spec_chain() + " Transaction: Sending "@ + amount_rep(
                amount as nat,
                self.spec_denom_pow(),
            ) + " "@ + self.spec_symbol() + " to "@ + to@);
        }
        s
    }
}

impl SupportsStaking for Ethereum {
    open spec fn spec_provider(&self) -> Seq<char> {
        "Figment"@
    }

    fn stake(&self, amount: u64) -> (r: String) {
        let mut s = String::from_str("Staking ");
        push_amount(&mut s, amount, 18);
        s.append(" ");
        s.append("ETH");
        s.append(" on ");
        s.append("Ethereum");
        s.append(" network");
        proof {
            assert(s@ =~= "Staking "@ + amount_rep(amount as nat, self.spec_denom_pow()) + " "@
                + self.spec_symbol() + " on "@ + self.spec_chain() + " network"@);
        }
        s
    }

    fn staking_provider(&self) -> (r: String) {
        String::from_str("Figment")
    }
}

/// The Solana chain.
#[derive(Debug, Clone)]
pub struct Solana {
    /// Whether the node runs the alternative validator client.
    pub uses_firedancer: bool,
    /// The node the wallet talks to.
    pub node_url: String,
    /// Which network the node serves.
    pub network: String,
    /// Whether the node is a validator in good standing.
    pub is_valid: bool,
}

impl Default for Solana {
    /// A fresh wallet: empty node and network names, all flags off.
    fn default() -> (r: Solana)
        ensures
            !r.uses_firedancer,
            r.node_url@ == Seq::<char>::empty(),
            r.network@ == Seq::<char>::empty(),
            !r.is_valid,
    {
        Solana {
            uses_firedancer: false,
            node_url: String::new(),
            network: String::new(),
            is_valid: false,
        }
    }
}

impl Coin for Solana {
    open spec fn spec_denom_pow(&self) -> nat {
        9
    }

    open spec fn spec_symbol(&self) -> Seq<char> {
        "SOL"@
    }

    open spec fn spec_chain(&self) -> Seq<char> {
        "Solana"@
    }

    fn denom_pow(&self) -> (r: u8) {
        9
    }

    fn symbol(&self) -> (r: String) {
        String::from_str("SOL")
    }

    fn send(&self, to: &str, amount: u64) -> (r: String) {
        let mut s = String::from_str("Solana");
        s.append(" Transaction: Sending ");
        push_amount(&mut s, amount, 9);
        s.append(" ");
        s.append("SOL");
        s.append(" to ");
        s.append(to);
        proof {
            assert(s@ =~= self.spec_chain() + " Transaction: Sending "@ + amount_rep(
                amount as nat,
                self.spec_denom_pow(),
            ) + " "@ + self.spec_symbol() + " to "@ + to@);
        }
        s
    }
}

impl SupportsStaking for Solana {
    open spec fn spec_provider(&self) -> Seq<char> {
        "Okx"@
    }

    fn stake(&self, amount: u64) -> (r: String) {
        let mut s = String::from_str("Staking ");
        push_amount(&mut s, amount, 9);
        s.append(" ");
        s.append("SOL");
        s.append(" on ");
        s.append("Solana");
        s.append(" network");
        proof {
            assert(s@ =~= "Staking "@ + amount_rep(amount as nat, self.spec_denom_pow()) + " "@
                + self.spec_symbol() + " on "@ + self.spec_chain() + " network"@);
        }
        s
    }

    fn staking_provider(&self) -> (r: String) {
        String::from_str("Okx")
    }
}

/// Log a send operation and perform it: the log line, and the
/// transaction line after it.
pub fn static_log_send<C: Coin>(coin: &C, to: &str, amount: u64) -> (r: Vec<String>)
    ensures
        r@.len() == 2,
        r@[0]@ == "Static: Logging send operation for "@ + coin.spec_symbol(),
        r@[1]@ == coin.spec_chain() + " Transaction: Sending "@ + amount_rep(
            amount as nat,
            coin.spec_denom_pow(),
        ) + " "@ + coin.spec_symbol() + " to "@ + to@,
{
    let mut log = String::from_str("Static: Logging send operation for ");
    let sym = coin.symbol();
    log.append(sym.as_str());
    let line = coin.send(to, amount);
    let mut out: Vec<String> = Vec::new();
    out.push(log);
    out.push(line);
    out
}

} // verus!
