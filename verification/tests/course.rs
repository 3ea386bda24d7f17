use network_logic_simulator::coins::{static_log_send, Bitcoin, Coin, Ethereum, Solana,
    SupportsStaking};
use network_logic_simulator::network_state::{NetworkState, NetworkStates, Node};
use network_logic_simulator::numtext::{parse_small_dec, to_dec_string};
use network_logic_simulator::primes::is_prime;
use network_logic_simulator::text::{change_string, str_eq, use_string_mutable};
use network_logic_simulator::tx::{
    display_classic_tx_error, display_modern_tx_error, error_match_showcase, send_specific_tx,
    task_1_failing_fn_classic, task_1_failing_fn_modern, ClassicTxError, ModernTxError,
    WalletError,
};

fn task_1(classic_err: ClassicTxError, modern_err: ModernTxError) {
    let classic_display = classic_err.message();
    assert_eq!(classic_display, "btc: 10");
    let modern_display = modern_err.message();
    assert_eq!(modern_display, "eth: 20");
}

#[test]
fn test_task_1() {
    let classic_err = task_1_failing_fn_classic().unwrap_err();
    let modern_err = task_1_failing_fn_modern().unwrap_err();
    task_1(classic_err, modern_err);
}

fn task2(err: ModernTxError, assert_msg: &str) {
    let display = err.message();
    assert_eq!(display, assert_msg);
}

#[test]
fn test_task2() {
    let wallet_err_1 = ModernTxError::Wallet(WalletError::Locked);
    let wallet_err_2 = ModernTxError::Wallet(WalletError::NotFound);
    let wallet_err_3 =
        ModernTxError::Wallet(WalletError::InsufficientBalance { expected: 30, actual: 10 });

    task2(wallet_err_1, "Wallet is locked");
    task2(wallet_err_2, "Wallet not found");
    task2(
        wallet_err_3,
        "Insufficient balance in wallet, expected: 30, actual: 10",
    );
}

#[test]
fn tx_error_messages() {
    assert_eq!(ClassicTxError::InvalidFormat.message(), "Transaction has an invalid format");
    assert_eq!(
        ClassicTxError::InsufficientFunds.message(),
        "Insufficient funds for transaction"
    );
    assert_eq!(ClassicTxError::Unauthorized.message(), "Transaction is unauthorized");
    assert_eq!(ModernTxError::InvalidAddress.message(), "Invalid address provided");
}

#[test]
fn send_specific_tx_always_fails() {
    let e = send_specific_tx("btc").unwrap_err();
    assert_eq!(e.currency, "USDT");
    assert_eq!(e.details, "btc");
    assert_eq!(e.message(), "USDT: btc");

    let e = send_specific_tx("eth").unwrap_err();
    assert_eq!(e.currency, "BTC");
    assert_eq!(e.details, "Only BTC transactions are supported");
    assert_eq!(e.message(), "BTC: Only BTC transactions are supported");
}

#[test]
fn display_walk_errors() {
    let classic = display_classic_tx_error().unwrap_err();
    assert_eq!(
        classic.message(),
        "Specific transaction error: BTC: Only BTC transactions are supported"
    );
    let modern = display_modern_tx_error().unwrap_err();
    assert_eq!(
        modern.message(),
        "Specific transaction error: BTC: Only BTC transactions are supported"
    );
}

#[test]
fn handling_messages() {
    assert_eq!(
        error_match_showcase(&ModernTxError::InsufficientFunds),
        "Handle insufficient funds error"
    );
    assert_eq!(
        error_match_showcase(&ModernTxError::InvalidFormat),
        "Handle invalid format error"
    );
    assert_eq!(
        error_match_showcase(&ModernTxError::Wallet(WalletError::Locked)),
        "Handle wallet error: Wallet is locked"
    );
}

#[test]
fn primes_small() {
    assert!(!is_prime(0));
    assert!(!is_prime(1));
    assert!(is_prime(2));
    assert!(is_prime(3));
    assert!(!is_prime(4));
    assert!(is_prime(5));
    assert!(!is_prime(9));
    assert!(is_prime(97));
    assert!(!is_prime(100));
    assert!(is_prime(7919));
    assert!(!is_prime(7917));
}

#[test]
fn network_state_modify_and_display() {
    let mut state = NetworkState {
        validator_id: 1,
        validator_name: "Max".to_string(),
        node: Node {},
    };
    assert_eq!(state.display(), "network state: 1 Max");
    state.modify();
    assert_eq!(state.validator_name, "other");
    assert_eq!(state.validator_id, 1);
    assert_eq!(state.display(), "network state: 1 other");

    let default_state = NetworkState::default();
    assert_eq!(default_state.validator_id, 0);
    assert_eq!(default_state.validator_name, "");

    let ns = NetworkStates::Zuitzerland("hello world".to_string());
    ns.display();
}

#[test]
fn string_helpers() {
    let mut s = "hello world owned".to_string();
    use_string_mutable(&mut s);
    assert_eq!(s, "");

    let s2 = change_string("hello".to_string());
    assert_eq!(s2, "");

    assert!(str_eq("abc", "abc"));
    assert!(!str_eq("abc", "abd"));
    assert!(!str_eq("abc", "ab"));
    assert!(str_eq("", ""));
}

#[test]
fn coin_denominations() {
    let btc = Bitcoin::default();
    assert_eq!(btc.denom_pow(), 9);
    assert_eq!(btc.denom(), 1_000_000_000);
    assert_eq!(btc.symbol(), "BTC");
    let eth = Ethereum::default();
    assert_eq!(eth.denom_pow(), 18);
    assert_eq!(eth.denom(), 1_000_000_000_000_000_000);
    assert_eq!(eth.symbol(), "ETH");
    let sol = Solana::default();
    assert_eq!(sol.denom(), 1_000_000_000);
    assert_eq!(sol.symbol(), "SOL");
}

#[test]
fn coin_send_lines() {
    let btc = Bitcoin::default();
    assert_eq!(
        btc.send("alice_btc_address", 150_000_000),
        "Bitcoin Transaction: Sending 0.15 BTC to alice_btc_address"
    );
    let eth = Ethereum::default();
    assert_eq!(
        eth.send("alice_eth_address", 3_000_000_000_000_000_000),
        "Ethereum Transaction: Sending 3 ETH to alice_eth_address"
    );
    let sol = Solana::default();
    assert_eq!(
        sol.send("bob", 1),
        "Solana Transaction: Sending 0.000000001 SOL to bob"
    );
    assert_eq!(
        sol.send("bob", 2_500_000_000),
        "Solana Transaction: Sending 2.5 SOL to bob"
    );
    assert_eq!(sol.send("bob", 0), "Solana Transaction: Sending 0 SOL to bob");
}

#[test]
fn coin_staking() {
    let eth = Ethereum::default();
    assert_eq!(eth.staking_provider(), "Figment");
    assert_eq!(
        eth.stake(500_000_000_000_000_000),
        "Staking 0.5 ETH on Ethereum network"
    );
    let sol = Solana::default();
    assert_eq!(sol.staking_provider(), "Okx");
    assert_eq!(sol.stake(1_000_000_000), "Staking 1 SOL on Solana network");
}

#[test]
fn logged_send() {
    let btc = Bitcoin::default();
    let lines = static_log_send(&btc, "bob_btc_address", 200_000_000);
    assert_eq!(
        lines,
        vec![
            "Static: Logging send operation for BTC",
            "Bitcoin Transaction: Sending 0.2 BTC to bob_btc_address"
        ]
    );
}

#[test]
fn decimal_text() {
    assert_eq!(to_dec_string(0), "0");
    assert_eq!(to_dec_string(7), "7");
    assert_eq!(to_dec_string(10), "10");
    assert_eq!(to_dec_string(1234567890123456789), "1234567890123456789");
    assert_eq!(to_dec_string(u64::MAX), "18446744073709551615");

    assert_eq!(parse_small_dec("0"), Some(0));
    assert_eq!(parse_small_dec("0042"), Some(42));
    assert_eq!(parse_small_dec("9999999"), Some(9999999));
    assert_eq!(parse_small_dec(""), None);
    assert_eq!(parse_small_dec("12345678"), None);
    assert_eq!(parse_small_dec("12a"), None);
}
