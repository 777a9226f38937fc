use plethora_monitor::abi::{AbiFunction, AbiParam, ContractAbi};
use plethora_monitor::cursor::{cursor_key, MonitorState};
use plethora_monitor::filter::{Condition, MonitorRule};
use plethora_monitor::notifications::{destinations_for, NotificationDestination};
use plethora_monitor::primitives::{Address, U256};
use plethora_monitor::registry::{
    choose_rpc_url, implementation_address, prepare_monitor, CreateMonitorResponse, MonitorConfig,
    MonitorRegistry, SetupError,
};

fn config(address: &str) -> MonitorConfig {
    MonitorConfig {
        name: "token".to_string(),
        rpc_url: String::new(),
        chain: "mainnet".to_string(),
        address: address.to_string(),
        events: Some(vec!["Transfer".to_string()]),
        functions: None,
        email_recipient: Some("ops@example.com".to_string()),
    }
}

fn abi() -> ContractAbi {
    ContractAbi {
        functions: vec![AbiFunction {
            name: "transfer".to_string(),
            inputs: vec![AbiParam { name: "to".to_string(), ty: "address".to_string(), indexed: false }],
        }],
        events: vec![],
    }
}

#[test]
fn cursor_is_written_as_pretty_json() {
    let s = MonitorState { last_processed_block: 1000 };
    assert_eq!(s.to_json(), "{\n  \"last_processed_block\": 1000\n}");
}

#[test]
fn cursor_reads_back_what_was_written() {
    for n in [0u64, 7, 1005, u64::MAX] {
        let s = MonitorState { last_processed_block: n };
        assert_eq!(MonitorState::from_json(s.to_json().as_bytes()), Some(s));
    }
    assert_eq!(
        MonitorState::from_json(b" {\"last_processed_block\":12}\n"),
        Some(MonitorState { last_processed_block: 12 })
    );
}

#[test]
fn corrupt_cursor_reads_as_absent() {
    assert_eq!(MonitorState::from_json(b""), None);
    assert_eq!(MonitorState::from_json(b"{\"last_processed_block\": }"), None);
    assert_eq!(MonitorState::from_json(b"{\"last_processed_block\": 18446744073709551616}"), None);
    assert_eq!(MonitorState::from_json(b"{\"last_processed_block\": 012}"), None);
    assert_eq!(MonitorState::from_json(b"{\"block\": 12}"), None);
    assert_eq!(MonitorState::from_json(b"{\"last_processed_block\": 12} x"), None);
}

#[test]
fn creation_prepares_pollers_and_destinations() {
    let plan = match prepare_monitor(config("0xab00000000000000000000000000000000000001"), &abi(), &"http://node".to_string()) {
        Ok(p) => p,
        Err(_) => panic!("valid request refused"),
    };
    assert_eq!(plan.rpc_url, "http://node");
    assert_eq!(plan.address.bytes[0], 0xab);
    assert_eq!(plan.address.bytes[19], 0x01);
    assert!(plan.watch_events);
    assert!(!plan.watch_transactions);
    assert_eq!(plan.event_names, vec!["Transfer".to_string()]);
    assert_eq!(plan.destinations.len(), 1);
}

#[test]
fn creation_binds_rules_and_keeps_requested_node() {
    let mut c = config("ab00000000000000000000000000000000000001");
    c.rpc_url = "http://mine".to_string();
    c.events = None;
    c.email_recipient = None;
    c.functions = Some(vec![MonitorRule { name: "r".to_string(), conditions: vec![Condition::Function("transfer".to_string())], abi_function: None }]);
    let plan = match prepare_monitor(c, &abi(), &"http://node".to_string()) {
        Ok(p) => p,
        Err(_) => panic!("valid request refused"),
    };
    assert_eq!(plan.rpc_url, "http://mine");
    assert!(plan.watch_transactions);
    assert!(!plan.watch_events);
    assert!(plan.destinations.is_empty());
    assert_eq!(plan.rules[0].abi_function.as_ref().unwrap().name, "transfer");
}

#[test]
fn monitor_with_nothing_to_watch_is_still_created() {
    let mut c = config("0xab00000000000000000000000000000000000001");
    c.events = None;
    let plan = prepare_monitor(c, &abi(), &String::new());
    assert!(matches!(plan, Ok(ref p) if !p.watch_events && !p.watch_transactions));
}

#[test]
fn invalid_contract_address_is_a_setup_error() {
    let r = prepare_monitor(config("0x1234"), &abi(), &String::new());
    assert!(matches!(r, Err(SetupError::InvalidAddress)));
}

#[test]
fn empty_rpc_url_falls_back_to_default() {
    assert_eq!(choose_rpc_url(&String::new(), &"d".to_string()), "d");
    assert_eq!(choose_rpc_url(&"u".to_string(), &"d".to_string()), "u");
}

#[test]
fn response_reports_running() {
    let r = CreateMonitorResponse::running("id-1".to_string());
    assert_eq!(r.id, "id-1");
    assert_eq!(r.status, "Running");
}

#[test]
fn registry_tracks_ids_and_refuses_duplicates() {
    let mut reg: MonitorRegistry<u32> = MonitorRegistry::new();
    assert!(reg.register("a".to_string(), 1));
    assert!(reg.register("b".to_string(), 2));
    assert!(!reg.register("a".to_string(), 3));
    assert_eq!(reg.lookup("a"), Some(&1));
    assert_eq!(reg.len(), 2);
    assert!(reg.deregister("a"));
    assert!(!reg.deregister("a"));
    assert_eq!(reg.lookup("a"), None);
    assert_eq!(reg.len(), 1);
}

#[test]
fn proxy_reply_selects_implementation_address() {
    let proxy = Address { bytes: [1u8; 20] };
    let mut reply = vec![0u8; 32];
    reply[12..32].copy_from_slice(&[9u8; 20]);
    assert_eq!(implementation_address(&proxy, Some(reply.as_slice())).bytes, [9u8; 20]);
    assert_eq!(implementation_address(&proxy, Some(&reply[..31])).bytes, [1u8; 20]);
    assert_eq!(implementation_address(&proxy, None).bytes, [1u8; 20]);
}

#[test]
fn email_recipient_becomes_the_destination() {
    let d = destinations_for(&Some("x@y.z".to_string()));
    assert!(matches!(&d[..], [NotificationDestination::Email(e)] if e == "x@y.z"));
    assert!(destinations_for(&None).is_empty());
}

#[test]
fn addresses_parse_with_or_without_prefix() {
    let hex = "Ab00000000000000000000000000000000000001";
    let a = Address::parse(hex).unwrap();
    assert_eq!(a.bytes[0], 0xab);
    assert!(Address::parse(&format!("0X{hex}")).is_some());
    assert!(Address::parse(&format!("0x{hex}0")).is_none());
    assert!(Address::parse("0xzz00000000000000000000000000000000000001").is_none());
    assert!(a == Address::parse(&format!("0x{}", hex.to_lowercase())).unwrap());
}

#[test]
fn numbers_parse_in_each_radix_and_reject_overflow() {
    assert_eq!(U256::parse("255").unwrap().limbs, [255, 0, 0, 0]);
    assert_eq!(U256::parse("0xff").unwrap().limbs, [255, 0, 0, 0]);
    assert_eq!(U256::parse("0b1_0000").unwrap().limbs, [16, 0, 0, 0]);
    assert_eq!(U256::parse("0o17").unwrap().limbs, [15, 0, 0, 0]);
    assert_eq!(U256::parse("").unwrap().limbs, [0, 0, 0, 0]);
    assert!(U256::parse(&format!("0x1{}", "0".repeat(64))).is_none());
    assert!(U256::parse("12a").is_none());
    assert_eq!(U256::from_u64(9).compare(&U256::parse("10").unwrap()), -1);
}

#[test]
fn selector_is_the_digest_prefix_of_the_signature() {
    let f = AbiFunction {
        name: "transfer".to_string(),
        inputs: vec![
            AbiParam { name: "to".to_string(), ty: "address".to_string(), indexed: false },
            AbiParam { name: "amount".to_string(), ty: "uint256".to_string(), indexed: false },
        ],
    };
    assert_eq!(f.selector(), vec![0xa9, 0x05, 0x9c, 0xbb]);
}

#[test]
fn cursor_key_is_a_plain_file_name() {
    assert_eq!(cursor_key("a/.."), "612f2e2e");
    assert_eq!(cursor_key("token"), cursor_key("token"));
}
