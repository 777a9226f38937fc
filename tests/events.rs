use plethora_monitor::abi::{format_value, AbiEvent, AbiParam, ContractAbi, Value};
use plethora_monitor::events::{event_topics, get_event_details, Log};
use plethora_monitor::notifications::{event_alert, event_alerts, tx_alert};
use plethora_monitor::filter::Transaction;
use plethora_monitor::poller::{EventPoller, PollAction, PollEvent};
use plethora_monitor::primitives::{Address, U256};

const TRANSFER_TOPIC: &str = "ddf252ad1be2c89b69c2b068fc378daa952ba7f163c4a11628f55a4df523b3ef";

fn word(hex: &str) -> [u8; 32] {
    let v = alloy::primitives::hex::decode(hex).unwrap();
    let mut w = [0u8; 32];
    w.copy_from_slice(&v);
    w
}

fn addr_word(last: u8) -> [u8; 32] {
    let mut w = [0u8; 32];
    w[12] = 0xab;
    w[31] = last;
    w
}

fn amount_word(n: u64) -> Vec<u8> {
    let mut w = vec![0u8; 32];
    w[24..32].copy_from_slice(&n.to_be_bytes());
    w
}

fn token_abi() -> ContractAbi {
    let p = |name: &str, ty: &str, indexed: bool| AbiParam { name: name.to_string(), ty: ty.to_string(), indexed };
    ContractAbi {
        functions: vec![],
        events: vec![
            AbiEvent { name: "Approval".to_string(), inputs: vec![p("owner", "address", true), p("spender", "address", true), p("value", "uint256", false)], anonymous: false },
            AbiEvent { name: "Transfer".to_string(), inputs: vec![p("from", "address", true), p("to", "address", true), p("value", "uint256", false)], anonymous: false },
        ],
    }
}

fn transfer_log(block: u64, value: u64) -> Log {
    Log { block_number: Some(block), topics: vec![word(TRANSFER_TOPIC), addr_word(1), addr_word(2)], data: amount_word(value) }
}

fn checksum(last: u8) -> String {
    let mut b = [0u8; 20];
    b[0] = 0xab;
    b[19] = last;
    alloy::primitives::Address::from(b).to_string()
}

#[test]
fn transfer_log_renders_every_input_in_order() {
    let details = get_event_details(&transfer_log(7, 5), &token_abi());
    let expected = format!("Event: Transfer\n- from: {}\n- to: {}\n- value: 5\n", checksum(1), checksum(2));
    assert_eq!(details, expected);
}

#[test]
fn log_without_topics_is_reported_as_malformed() {
    let log = Log { block_number: None, topics: vec![], data: vec![] };
    assert_eq!(get_event_details(&log, &token_abi()), "Event: Anonymous/Malformed (No topics)");
}

#[test]
fn unknown_topic_is_reported_with_its_signature() {
    let log = Log { block_number: None, topics: vec![[0x11u8; 32]], data: vec![] };
    assert_eq!(get_event_details(&log, &token_abi()), format!("Unknown Event (Signature: 0x{})", "11".repeat(32)));
}

#[test]
fn undecodable_log_names_the_event_and_the_error() {
    let log = Log { block_number: None, topics: vec![word(TRANSFER_TOPIC), addr_word(1)], data: vec![] };
    let details = get_event_details(&log, &token_abi());
    assert!(details.starts_with("Event: Transfer (Decode Error: "));
    assert!(details.ends_with(')'));
}

#[test]
fn subscribed_names_resolve_to_topics_and_unknown_ones_are_skipped() {
    let names = vec!["Transfer".to_string(), "Mint".to_string()];
    let topics = event_topics(&token_abi(), &names);
    assert_eq!(topics, vec![word(TRANSFER_TOPIC)]);
}

#[test]
fn formatting_twice_gives_identical_text() {
    let v = Value::Tuple(vec![
        Value::Array(vec![Value::Uint(U256 { limbs: [1, 0, 0, 0] }, 256), Value::Uint(U256 { limbs: [22, 0, 0, 0] }, 256)]),
        Value::Bool(false),
        Value::Bytes(vec![0xde, 0xad]),
        Value::Str("hi".to_string()),
    ]);
    let first = format_value(&v);
    let second = format_value(&v);
    assert_eq!(first, "([1, 22], false, dead, hi)");
    assert_eq!(first.as_bytes(), second.as_bytes());
}

#[test]
fn formatter_renders_each_scalar_kind() {
    assert_eq!(format_value(&Value::Int(U256 { limbs: [u64::MAX, u64::MAX, u64::MAX, u64::MAX] }, 256)), "-1");
    assert_eq!(format_value(&Value::Int(U256 { limbs: [42, 0, 0, 0] }, 256)), "42");
    assert_eq!(format_value(&Value::Uint(U256 { limbs: [0, 1, 0, 0] }, 256)), "18446744073709551616");
    assert_eq!(format_value(&Value::Bool(true)), "true");
    assert_eq!(format_value(&Value::FixedArray(vec![])), "[]");
    assert_eq!(format_value(&Value::Other("Function(0x00)".to_string())), "Function(0x00)");
    let mut b = [0u8; 20];
    b[0] = 0xab;
    b[19] = 1;
    assert_eq!(format_value(&Value::Address(Address { bytes: b })), checksum(1));
    let mut w = [0u8; 32];
    w[0] = 0x0f;
    assert_eq!(format_value(&Value::FixedBytes(w, 1)), format!("0f{}", "00".repeat(31)));
}

#[test]
fn first_tick_stores_head_then_range_logs_alert_in_block_order() {
    let abi = token_abi();
    let (mut poller, first) = EventPoller::start(None);
    assert_eq!(first, PollAction::FetchHead);
    assert_eq!(poller.step(PollEvent::HeadFetched(1000)), PollAction::Persist(1000));
    assert_eq!(poller.step(PollEvent::Persisted), PollAction::Sleep(2000));
    assert_eq!(poller.cursor, Some(1000));
    assert_eq!(poller.step(PollEvent::Woke), PollAction::FetchHead);
    assert_eq!(poller.step(PollEvent::HeadFetched(1005)), PollAction::FetchLogs { from_block: 1001, to_block: 1005 });
    let logs = vec![transfer_log(1002, 10), transfer_log(1004, 20)];
    let alerts = event_alerts(&"token".to_string(), &logs, &abi);
    assert_eq!(alerts.len(), 2);
    assert!(alerts[0].message.starts_with("Event Alert: token\nBlock: Some(1002)\nEvent: Transfer\n"));
    assert!(alerts[0].message.ends_with("- value: 10\n"));
    assert!(alerts[1].message.starts_with("Event Alert: token\nBlock: Some(1004)\n"));
    assert!(alerts[1].message.ends_with("- value: 20\n"));
    assert_eq!(alerts[0].subject, "Event ALERT");
    assert_eq!(alerts[0].source, "token");
    assert_eq!(poller.step(PollEvent::LogsHandled), PollAction::Persist(1005));
    assert_eq!(poller.step(PollEvent::Persisted), PollAction::Sleep(2000));
    assert_eq!(poller.cursor, Some(1005));
}

#[test]
fn transaction_alert_names_rule_hash_and_sender() {
    let mut b = [0u8; 20];
    b[19] = 0x0a;
    let tx = Transaction { hash: [0xffu8; 32], from: Address { bytes: b }, to: None, input: vec![] };
    let alert = tx_alert(&"m".to_string(), &"BigTransfer".to_string(), &tx, &token_abi());
    assert_eq!(alert.subject, "TX ALERT");
    assert_eq!(
        alert.message,
        format!(
            "Transaction Alert: m\nHash: 0x{}\nFrom: 0x{}0a\nRule: BigTransfer\nCall: none (plain transfer)",
            "ff".repeat(32),
            "00".repeat(19)
        )
    );
}

#[test]
fn log_without_block_says_none() {
    let mut log = transfer_log(1, 3);
    log.block_number = None;
    let alert = event_alert(&"token".to_string(), &log, &token_abi());
    assert!(alert.message.starts_with("Event Alert: token\nBlock: None\nEvent: Transfer\n"));
}

#[test]
fn address_text_is_the_eip55_checksum() {
    let mut b = [0u8; 20];
    let bytes = alloy::primitives::hex::decode("d8da6bf26964af9d7eed9e03e53415d37aa96045").unwrap();
    b.copy_from_slice(&bytes);
    assert_eq!(format_value(&Value::Address(Address { bytes: b })), "0xd8dA6BF26964aF9D7eEd9e03E53415D37aA96045");
}
