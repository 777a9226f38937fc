use plethora_monitor::abi::{AbiFunction, AbiParam, ContractAbi, Value};
use plethora_monitor::filter::{
    check_value, get_tx_details, map_rules_to_abi, matching_rules, Condition, MonitorRule, Operator,
    Transaction,
};
use plethora_monitor::primitives::{Address, U256};

fn param(name: &str, ty: &str) -> AbiParam {
    AbiParam { name: name.to_string(), ty: ty.to_string(), indexed: false }
}

fn erc20_abi() -> ContractAbi {
    ContractAbi {
        functions: vec![
            AbiFunction { name: "approve".to_string(), inputs: vec![param("spender", "address"), param("amount", "uint256")] },
            AbiFunction { name: "transfer".to_string(), inputs: vec![param("to", "address"), param("amount", "uint256")] },
        ],
        events: vec![],
    }
}

fn addr(last: u8) -> Address {
    let mut bytes = [0u8; 20];
    bytes[0] = 0xab;
    bytes[19] = last;
    Address { bytes }
}

fn word_u64(n: u64) -> [u8; 32] {
    let mut w = [0u8; 32];
    w[24..32].copy_from_slice(&n.to_be_bytes());
    w
}

fn transfer_input(to: &Address, amount: u64) -> Vec<u8> {
    let mut input = vec![0xa9, 0x05, 0x9c, 0xbb];
    let mut w = [0u8; 32];
    w[12..32].copy_from_slice(&to.bytes);
    input.extend_from_slice(&w);
    input.extend_from_slice(&word_u64(amount));
    input
}

fn tx(from: Address, input: Vec<u8>) -> Transaction {
    Transaction { hash: [7u8; 32], from, to: Some(addr(0x99)), input }
}

fn big_transfer_rule() -> MonitorRule {
    MonitorRule {
        name: "BigTransfer".to_string(),
        conditions: vec![
            Condition::Function("transfer".to_string()),
            Condition::Argument { name: "amount".to_string(), operator: Operator::Gt, value: "1000000".to_string() },
        ],
        abi_function: None,
    }
}

fn uint(n: u64) -> Value {
    Value::Uint(U256 { limbs: [n, 0, 0, 0] }, 256)
}

#[test]
fn big_transfer_matches_above_threshold_only() {
    let rules = map_rules_to_abi(vec![big_transfer_rule()], &erc20_abi());
    let rule = &rules[0];
    assert_eq!(rule.abi_function.as_ref().unwrap().name, "transfer");
    let big = tx(addr(1), transfer_input(&addr(2), 2_000_000));
    let small = tx(addr(1), transfer_input(&addr(2), 500));
    assert!(rule.tx_match(&big));
    assert!(!rule.tx_match(&small));
}

#[test]
fn sender_and_amount_rule_is_a_conjunction() {
    let sender = addr(1);
    let mut rule = MonitorRule {
        name: "FromA".to_string(),
        conditions: vec![
            Condition::From(sender.clone()),
            Condition::Argument { name: "amount".to_string(), operator: Operator::Gt, value: "100".to_string() },
        ],
        abi_function: None,
    };
    rule.abi_function = Some(erc20_abi().functions.remove(1));
    assert!(rule.tx_match(&tx(addr(1), transfer_input(&addr(2), 101))));
    assert!(!rule.tx_match(&tx(addr(1), transfer_input(&addr(2), 100))));
    assert!(!rule.tx_match(&tx(addr(3), transfer_input(&addr(2), 101))));
    assert!(!rule.tx_match(&tx(addr(3), transfer_input(&addr(2), 5))));
}

#[test]
fn argument_condition_fails_closed_on_short_input() {
    let rules = map_rules_to_abi(vec![big_transfer_rule()], &erc20_abi());
    assert!(!rules[0].tx_match(&tx(addr(1), vec![])));
    assert!(!rules[0].tx_match(&tx(addr(1), vec![0xa9, 0x05, 0x9c])));
}

#[test]
fn unbound_rule_with_argument_never_matches() {
    let rule = big_transfer_rule();
    assert!(!rule.tx_match(&tx(addr(1), transfer_input(&addr(2), 2_000_000))));
}

#[test]
fn argument_that_does_not_decode_is_no_match() {
    let rules = map_rules_to_abi(vec![big_transfer_rule()], &erc20_abi());
    let mut input = transfer_input(&addr(2), 2_000_000);
    input.truncate(40);
    assert!(!rules[0].tx_match(&tx(addr(1), input)));
}

#[test]
fn empty_rule_matches_everything() {
    let rule = MonitorRule { name: "all".to_string(), conditions: vec![], abi_function: None };
    assert!(rule.tx_match(&tx(addr(1), vec![])));
}

#[test]
fn to_condition_parses_address_and_rejects_garbage() {
    let target = format!("0x{}", "ab".to_string() + &"00".repeat(18) + "99");
    let ok = MonitorRule { name: "to".to_string(), conditions: vec![Condition::To(target)], abi_function: None };
    assert!(ok.tx_match(&tx(addr(1), vec![])));
    let bad = MonitorRule { name: "to".to_string(), conditions: vec![Condition::To("not-an-address".to_string())], abi_function: None };
    assert!(!bad.tx_match(&tx(addr(1), vec![])));
}

#[test]
fn function_condition_checks_name_and_selector() {
    let rule = MonitorRule { name: "f".to_string(), conditions: vec![Condition::Function("transfer".to_string())], abi_function: None };
    let bound = map_rules_to_abi(vec![rule], &erc20_abi());
    assert!(bound[0].tx_match(&tx(addr(1), transfer_input(&addr(2), 1))));
    let mut approve = transfer_input(&addr(2), 1);
    approve[..4].copy_from_slice(&[0x09, 0x5e, 0xa7, 0xb3]);
    assert!(!bound[0].tx_match(&tx(addr(1), approve)));
}

#[test]
fn binding_keeps_rules_without_known_function() {
    let rule = MonitorRule { name: "x".to_string(), conditions: vec![Condition::Function("mint".to_string())], abi_function: None };
    let plain = MonitorRule { name: "y".to_string(), conditions: vec![], abi_function: None };
    let bound = map_rules_to_abi(vec![rule, plain], &erc20_abi());
    assert_eq!(bound.len(), 2);
    assert!(bound[0].abi_function.is_none());
    assert!(bound[1].abi_function.is_none());
    assert_eq!(bound[1].name, "y");
}

#[test]
fn every_matching_rule_is_reported() {
    let any = MonitorRule { name: "any".to_string(), conditions: vec![], abi_function: None };
    let none = MonitorRule { name: "none".to_string(), conditions: vec![Condition::From(addr(5))], abi_function: None };
    let big = map_rules_to_abi(vec![big_transfer_rule()], &erc20_abi()).remove(0);
    let rules = vec![any, none, big];
    assert_eq!(matching_rules(&rules, &tx(addr(1), transfer_input(&addr(2), 2_000_000))), vec![0, 2]);
    assert_eq!(matching_rules(&rules, &tx(addr(1), transfer_input(&addr(2), 2))), vec![0]);
}

#[test]
fn numeric_operators_compare_numbers() {
    assert!(check_value(&uint(5), &Operator::Eq, "5"));
    assert!(check_value(&uint(5), &Operator::Gt, "4"));
    assert!(!check_value(&uint(5), &Operator::Gt, "5"));
    assert!(check_value(&uint(5), &Operator::Lt, "0x6"));
    assert!(check_value(&uint(1000), &Operator::Eq, "1_000"));
    assert!(!check_value(&uint(5), &Operator::Contains, "5"));
    assert!(!check_value(&uint(5), &Operator::Eq, "five"));
}

#[test]
fn large_words_compare_by_value() {
    let high = Value::Uint(U256 { limbs: [0, 0, 0, 1] }, 256);
    assert!(check_value(&high, &Operator::Gt, "18446744073709551615"));
    assert!(check_value(&high, &Operator::Eq, "0x1000000000000000000000000000000000000000000000000"));
    assert!(!check_value(&high, &Operator::Lt, "1"));
}

#[test]
fn contains_is_address_equality() {
    let a = Value::Address(addr(0x42));
    let text = format!("0x{}", "ab".to_string() + &"00".repeat(18) + "42");
    assert!(check_value(&a, &Operator::Contains, &text));
    assert!(check_value(&a, &Operator::Contains, &text.to_uppercase().replace("0X", "0x")));
    assert!(!check_value(&a, &Operator::Contains, "0xab"));
    assert!(!check_value(&a, &Operator::Eq, &text));
}

#[test]
fn other_kinds_never_compare() {
    assert!(!check_value(&Value::Bool(true), &Operator::Eq, "1"));
    assert!(!check_value(&Value::Str("5".to_string()), &Operator::Eq, "5"));
}

#[test]
fn call_details_name_the_function_and_its_arguments() {
    let input = transfer_input(&addr(2), 2_000_000);
    let details = get_tx_details(&tx(addr(1), input), &erc20_abi());
    let mut b = [0u8; 20];
    b[0] = 0xab;
    b[19] = 2;
    let to = alloy::primitives::Address::from(b).to_string();
    assert_eq!(details, format!("Function: transfer\n- to: {to}\n- amount: 2000000\n"));
}

#[test]
fn call_details_report_unknown_selectors_and_plain_transfers() {
    let mut input = transfer_input(&addr(2), 1);
    input[..4].copy_from_slice(&[1, 2, 3, 4]);
    assert_eq!(get_tx_details(&tx(addr(1), input), &erc20_abi()), "Call: unknown selector 0x01020304");
    assert_eq!(get_tx_details(&tx(addr(1), vec![]), &erc20_abi()), "Call: none (plain transfer)");
    let short = vec![0xa9, 0x05, 0x9c, 0xbb, 0x00];
    assert_eq!(get_tx_details(&tx(addr(1), short), &erc20_abi()), "Function: transfer (Decode Error)");
}
