use lattice::address::EthAddress;
use lattice::chain::default_chains;
use lattice::quote::{direct_transfer_quote, issue_quote};
use lattice::settlement::{SettlementStatus, TransferLog, WatcherEntry, WatcherStore};
use lattice::token::Token;

const RECIPIENT: &str = "0xd8dA6BF26964aF9D7eEd9e03E53415D37aA96045";
const USDC_BASE: &str = "0x833589fcd6edb6e08f4c7c32d4f71b54bda02913";

fn entry(id: &str, chain: &str) -> WatcherEntry {
    WatcherEntry::pending(
        id.to_string(),
        chain.to_string(),
        RECIPIENT.to_string(),
        USDC_BASE.to_string(),
        "1000".to_string(),
    )
}

fn transfer(value: u64, hash_byte: u8, block: u64) -> TransferLog {
    TransferLog { value: Some([value, 0, 0, 0]), tx_hash: Some([hash_byte; 32]), block_number: Some(block) }
}

fn undecodable() -> TransferLog {
    TransferLog { value: None, tx_hash: Some([0xee; 32]), block_number: Some(1) }
}

fn ids(v: &[WatcherEntry]) -> Vec<String> {
    let mut out: Vec<String> = v.iter().map(|e| e.quote_id.clone()).collect();
    out.sort();
    out
}

#[test]
fn status_unknown_id_returns_not_found() {
    let store = WatcherStore::new();
    assert!(store.get(&"does-not-exist".to_string()).is_none());
}

#[test]
fn registered_quote_is_found_pending() {
    let mut store = WatcherStore::new();
    store.insert(entry("q1", "base"));
    let e = store.get(&"q1".to_string()).expect("registered");
    assert_eq!(e.status, SettlementStatus::Pending);
    assert_eq!(e.chain_name, "base");
    assert_eq!(e.amount_out_min, "1000");
    assert!(e.tx_hash.is_none() && e.block_number.is_none() && e.settled_amount.is_none());
}

#[test]
fn reregistering_replaces_the_entry() {
    let mut store = WatcherStore::new();
    store.insert(entry("q1", "base"));
    store.insert(entry("q1", "arbitrum"));
    assert_eq!(store.get(&"q1".to_string()).unwrap().chain_name, "arbitrum");
    assert_eq!(store.pending_for_chain(&"base".to_string()).len(), 0);
    assert_eq!(store.pending_for_chain(&"arbitrum".to_string()).len(), 1);
}

#[test]
fn pending_entries_by_chain() {
    let mut store = WatcherStore::new();
    store.insert(entry("a", "base"));
    store.insert(entry("b", "ethereum"));
    store.insert(entry("c", "base"));
    assert_eq!(ids(&store.pending_for_chain(&"base".to_string())), vec!["a", "c"]);
    assert_eq!(ids(&store.pending_for_chain(&"ethereum".to_string())), vec!["b"]);
    assert!(store.pending_for_chain(&"arbitrum".to_string()).is_empty());
}

#[test]
fn first_decodable_transfer_settles() {
    let mut store = WatcherStore::new();
    store.insert(entry("a", "base"));
    store.insert(entry("b", "base"));
    let logs = vec![undecodable(), transfer(1234, 0xab, 77), transfer(9, 0xcd, 78)];
    store.apply_transfer_logs(&"a".to_string(), &logs);
    let a = store.get(&"a".to_string()).unwrap();
    assert_eq!(a.status, SettlementStatus::Confirmed);
    assert_eq!(a.settled_amount.as_deref(), Some("1234"));
    assert_eq!(a.block_number, Some(77));
    assert_eq!(a.tx_hash, Some(format!("0x{}", "ab".repeat(32))));
    assert_eq!(a.recipient, RECIPIENT);
    let b = store.get(&"b".to_string()).unwrap();
    assert_eq!(b.status, SettlementStatus::Pending);
    assert_eq!(ids(&store.pending_for_chain(&"base".to_string())), vec!["b"]);
}

#[test]
fn settlement_happens_once() {
    let mut store = WatcherStore::new();
    store.insert(entry("a", "base"));
    store.apply_transfer_logs(&"a".to_string(), &vec![transfer(5, 0x01, 10)]);
    store.apply_transfer_logs(&"a".to_string(), &vec![transfer(6, 0x02, 11)]);
    let a = store.get(&"a".to_string()).unwrap();
    assert_eq!(a.settled_amount.as_deref(), Some("5"));
    assert_eq!(a.block_number, Some(10));
}

#[test]
fn logs_without_transfers_change_nothing() {
    let mut store = WatcherStore::new();
    store.insert(entry("a", "base"));
    store.apply_transfer_logs(&"a".to_string(), &vec![undecodable(), undecodable()]);
    store.apply_transfer_logs(&"missing".to_string(), &vec![transfer(5, 0x01, 10)]);
    assert_eq!(store.get(&"a".to_string()).unwrap().status, SettlementStatus::Pending);
    assert!(store.get(&"missing".to_string()).is_none());
}

#[test]
fn settled_amount_beyond_128_bits() {
    let mut store = WatcherStore::new();
    store.insert(entry("a", "base"));
    let log = TransferLog { value: Some([0, 0, 0, 1]), tx_hash: None, block_number: None };
    store.settle(&"a".to_string(), &log);
    let a = store.get(&"a".to_string()).unwrap();
    assert_eq!(a.settled_amount, Some(ethers::types::U256([0, 0, 0, 1]).to_string()));
    assert_eq!(a.tx_hash, None);
}

#[test]
fn watch_target_parses_both_addresses() {
    let e = entry("a", "base");
    let (r, t) = e.watch_target().expect("both parse");
    assert_eq!(r.to_hex(), RECIPIENT.to_lowercase());
    assert_eq!(t.to_hex(), USDC_BASE);
    let bad = WatcherEntry::pending(
        "x".to_string(),
        "base".to_string(),
        "not-an-address".to_string(),
        USDC_BASE.to_string(),
        "1".to_string(),
    );
    assert!(bad.watch_target().is_none());
}

#[test]
fn issuing_a_quote_registers_it() {
    let chains = default_chains(None, None, None);
    let recipient = EthAddress::parse(RECIPIENT).unwrap();
    let quote = direct_transfer_quote(&chains[1], Token::Usdc, recipient, 42);
    let mut store = WatcherStore::new();
    let issued = issue_quote(quote, "qid-1".to_string(), RECIPIENT.to_string(), &mut store);
    assert_eq!(issued.quote_id, "qid-1");
    let e = store.get(&"qid-1".to_string()).unwrap();
    assert_eq!(e.status, SettlementStatus::Pending);
    assert_eq!(e.chain_name, "base");
    assert_eq!(e.token_out_addr, issued.token_out);
    assert_eq!(e.amount_out_min, "42");
    assert_eq!(e.recipient, RECIPIENT);
}
