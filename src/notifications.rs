//! Alerts: what is sent for a match, and to whom.

use vstd::prelude::*;
use crate::abi::{ContractAbi, word_views};
use crate::events::{Log, event_details_text, get_event_details};
use crate::filter::{Transaction, get_tx_details, tx_details_text};
use crate::primitives::{U256, decimal_string, decimal_text, hex_string, hex_text};

verus! {

/// A message about one match, from one monitor.
pub struct Alert {
    pub source: String,
    pub subject: String,
    pub message: String,
}

/// Where alerts can be delivered.
pub enum NotificationDestination {
    Email(String),
}

/// An optional block number as its debug form: `Some(n)`, or `None` when
/// the log has no block yet.
pub open spec fn block_text(block: Option<u64>) -> Seq<char> {
    match block {
        Some(n) => "Some("@ + decimal_text(n as nat) + ")"@,
        None => "None"@,
    }
}

/// The alert for a log: the monitor's name, the block and the rendered event.
pub open spec fn event_alert_spec(monitor: Seq<char>, log: Log, abi: ContractAbi) -> (Seq<char>, Seq<char>, Seq<char>) {
    (
        monitor,
        "Event ALERT"@,
        "Event Alert: "@ + monitor + "\nBlock: "@ + block_text(log.block_number) + "\n"@
            + event_details_text(word_views(log.topics@), log.data@, abi),
    )
}

/// The alert for a transaction that matched a rule: the monitor, the hash,
/// the sender, the rule and the decoded call.
pub open spec fn tx_alert_spec(monitor: Seq<char>, rule: Seq<char>, tx: Transaction, abi: ContractAbi) -> (Seq<char>, Seq<char>, Seq<char>) {
    (
        monitor,
        "TX ALERT"@,
        "Transaction Alert: "@ + monitor + "\nHash: 0x"@ + hex_text(tx.hash@) + "\nFrom: 0x"@
            + hex_text(tx.from@) + "\nRule: "@ + rule + "\n"@ + tx_details_text(tx.input@, abi),
    )
}

pub open spec fn alert_view(a: Alert) -> (Seq<char>, Seq<char>, Seq<char>) {
    (a.source@, a.subject@, a.message@)
}

fn block_string(block: Option<u64>) -> (r: String)
    ensures
        r@ == block_text(block),
{
    match block {
        Some(n) => {
            let digits = decimal_string(&U256::from_u64(n));
            let mut s = String::new();
            s.append("Some(");
            s.append(digits.as_str());
            s.append(")");
            s
        },
        None => {
            let mut s = String::new();
            s.append("None");
            s
        },
    }
}

fn text(s: &str) -> (r: String)
    ensures
        r@ == s@,
{
    let mut r = String::new();
    r.append(s);
    r
}

/// Builds the alert for one log.
pub fn event_alert(monitor: &String, log: &Log, abi: &ContractAbi) -> (r: Alert)
    ensures
        alert_view(r) == event_alert_spec(monitor@, *log, *abi),
{
    let details = get_event_details(log, abi);
    let block = block_string(log.block_number);
    let mut message = String::new();
    message.append("Event Alert: ");
    message.append(monitor.as_str());
    message.append("\nBlock: ");
    message.append(block.as_str());
    message.append("\n");
    message.append(details.as_str());
    Alert { source: monitor.clone(), subject: text("Event ALERT"), message }
}

/// Builds one alert per log, in the order the logs came.
pub fn event_alerts(monitor: &String, logs: &Vec<Log>, abi: &ContractAbi) -> (r: Vec<Alert>)
    ensures
        r@.len() == logs@.len(),
        forall|i: int| 0 <= i < r@.len() ==> alert_view(#[trigger] r@[i]) == event_alert_spec(monitor@, logs@[i], *abi),
{
    let mut r: Vec<Alert> = Vec::new();
    let mut i: usize = 0;
    while i < logs.len()
        invariant
            0 <= i <= logs.len(),
            r@.len() == i,
            forall|j: int| 0 <= j < i ==> alert_view(#[trigger] r@[j]) == event_alert_spec(monitor@, logs@[j], *abi),
        decreases logs.len() - i,
    {
        r.push(event_alert(monitor, &logs[i], abi));
        i = i + 1;
    }
    r
}

/// Builds the alert for a transaction that matched the named rule.
pub fn tx_alert(monitor: &String, rule: &String, tx: &Transaction, abi: &ContractAbi) -> (r: Alert)
    ensures
        alert_view(r) == tx_alert_spec(monitor@, rule@, *tx, *abi),
{
    let details = get_tx_details(tx, abi);
    let hash = hex_string(tx.hash.as_slice());
    let from = hex_string(tx.from.bytes.as_slice());
    let mut message = String::new();
    message.append("Transaction Alert: ");
    message.append(monitor.as_str());
    message.append("\nHash: 0x");
    message.append(hash.as_str());
    message.append("\nFrom: 0x");
    message.append(from.as_str());
    message.append("\nRule: ");
    message.append(rule.as_str());
    message.append("\n");
    message.append(details.as_str());
    Alert { source: monitor.clone(), subject: text("TX ALERT"), message }
}

/// The destinations of a monitor: its email recipient, if it has one.
pub fn destinations_for(email_recipient: &Option<String>) -> (r: Vec<NotificationDestination>)
    ensures
        match email_recipient {
            Some(e) => r@.len() == 1 && (r@[0] matches NotificationDestination::Email(x) && x@ == e@),
            None => r@.len() == 0,
        },
{
    let mut r: Vec<NotificationDestination> = Vec::new();
    match email_recipient {
        Some(e) => r.push(NotificationDestination::Email(e.clone())),
        None => {},
    }
    r
}

} // verus!
