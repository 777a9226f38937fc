//! Monitor creation and the registry of running monitors.

use vstd::prelude::*;
use vstd::hash_map::StringHashMap;
use crate::abi::ContractAbi;
use crate::filter::{MonitorRule, binding_of, map_rules_to_abi, same_function};
use crate::notifications::{NotificationDestination, destinations_for};
use crate::primitives::{Address, address_from_text};

verus! {

/// A request to create a monitor.
pub struct MonitorConfig {
    pub name: String,
    /// The node to poll; empty for the service's default.
    pub rpc_url: String,
    pub chain: String,
    pub address: String,
    pub events: Option<Vec<String>>,
    pub functions: Option<Vec<MonitorRule>>,
    pub email_recipient: Option<String>,
}

/// The answer to a successful creation.
pub struct CreateMonitorResponse {
    pub id: String,
    pub status: String,
}

impl CreateMonitorResponse {
    /// The answer for a monitor that was started under `id`.
    pub fn running(id: String) -> (r: CreateMonitorResponse)
        ensures
            r.id@ == id@,
            r.status@ == "Running"@,
    {
        let mut status = String::new();
        status.append("Running");
        CreateMonitorResponse { id, status }
    }
}

/// Why a monitor could not be set up.
#[derive(Clone, Copy, PartialEq, Eq, Structural, Debug)]
pub enum SetupError {
    /// The contract address is not forty hex digits.
    InvalidAddress,
}

/// Everything a monitor runs with, once its request is checked and its
/// rules are bound to the contract interface.
pub struct MonitorPlan {
    pub name: String,
    pub rpc_url: String,
    pub address: Address,
    pub rules: Vec<MonitorRule>,
    pub event_names: Vec<String>,
    pub destinations: Vec<NotificationDestination>,
    /// A transaction poller runs: there is at least one rule.
    pub watch_transactions: bool,
    /// An event poller runs: there is at least one event name.
    pub watch_events: bool,
}

/// The node a monitor polls: the requested one, or the default if none was given.
pub open spec fn rpc_choice(requested: Seq<char>, default: Seq<char>) -> Seq<char> {
    if requested.len() == 0 {
        default
    } else {
        requested
    }
}

/// Picks the node to poll.
pub fn choose_rpc_url(requested: &String, default: &String) -> (r: String)
    ensures
        r@ == rpc_choice(requested@, default@),
{
    if requested.as_str().is_empty() {
        default.clone()
    } else {
        requested.clone()
    }
}

fn list_or_empty<T>(v: Option<Vec<T>>) -> (r: Vec<T>)
    ensures
        match v {
            Some(x) => r@ == x@,
            None => r@.len() == 0,
        },
{
    match v {
        Some(x) => x,
        None => Vec::new(),
    }
}

/// Checks a creation request and prepares what its monitor runs with: the
/// node, the parsed address, the rules bound to the interface, the event
/// names, the destinations, and which pollers to start (a monitor with
/// neither rules nor events is still created and does nothing). Fails only
/// on an address that does not parse.
pub fn prepare_monitor(config: MonitorConfig, abi: &ContractAbi, default_rpc: &String) -> (r: Result<MonitorPlan, SetupError>)
    ensures
        r is Err <==> address_from_text(config.address@) is None,
        r matches Err(e) ==> e == SetupError::InvalidAddress,
        r matches Ok(p) ==> {
            let rules = match config.functions { Some(f) => f@, None => Seq::empty() };
            let events = match config.events { Some(e) => e@, None => Seq::empty() };
            &&& p.name@ == config.name@
            &&& p.rpc_url@ == rpc_choice(config.rpc_url@, default_rpc@)
            &&& p.address@ == address_from_text(config.address@)->0
            &&& p.rules@.len() == rules.len()
            &&& forall|i: int| 0 <= i < rules.len() ==> {
                &&& (#[trigger] p.rules@[i]).name == rules[i].name
                &&& p.rules@[i].conditions == rules[i].conditions
                &&& match binding_of(rules[i].conditions@, *abi) {
                    Some(j) => p.rules@[i].abi_function matches Some(g) && same_function(g, abi.functions@[j]),
                    None => p.rules@[i].abi_function == rules[i].abi_function,
                }
            }
            &&& p.event_names@ == events
            &&& p.watch_transactions == (rules.len() > 0)
            &&& p.watch_events == (events.len() > 0)
            &&& match config.email_recipient {
                Some(e) => p.destinations@.len() == 1 && (p.destinations@[0] matches NotificationDestination::Email(x) && x@ == e@),
                None => p.destinations@.len() == 0,
            }
        },
{
    let address = match Address::parse(config.address.as_str()) {
        Some(a) => a,
        None => return Err(SetupError::InvalidAddress),
    };
    let rpc_url = choose_rpc_url(&config.rpc_url, default_rpc);
    let destinations = destinations_for(&config.email_recipient);
    let rules = map_rules_to_abi(list_or_empty(config.functions), abi);
    let event_names = list_or_empty(config.events);
    let watch_transactions = rules.len() > 0;
    let watch_events = event_names.len() > 0;
    Ok(MonitorPlan {
        name: config.name,
        rpc_url,
        address,
        rules,
        event_names,
        destinations,
        watch_transactions,
        watch_events,
    })
}

/// The implementation address a proxy reports: the low twenty bytes of the
/// first word it returned, or the proxy's own address when the call failed
/// or returned less than a word.
pub open spec fn implementation_of(proxy: Seq<u8>, reply: Option<Seq<u8>>) -> Seq<u8> {
    match reply {
        Some(b) => if b.len() >= 32 {
            b.subrange(12, 32)
        } else {
            proxy
        },
        None => proxy,
    }
}

/// Picks the address whose interface describes a possibly-proxied contract.
pub fn implementation_address(proxy: &Address, reply: Option<&[u8]>) -> (r: Address)
    ensures
        r@ == implementation_of(proxy@, match reply { Some(b) => Some(b@), None => None }),
{
    match reply {
        Some(b) => if b.len() >= 32 {
            let mut bytes: [u8; 20] = [0u8; 20];
            let mut i: usize = 0;
            while i < 20
                invariant
                    0 <= i <= 20,
                    b@.len() >= 32,
                    bytes@.len() == 20,
                    forall|j: int| 0 <= j < i ==> bytes@[j] == b@[12 + j],
                decreases 20 - i,
            {
                bytes[i] = b[12 + i];
                i = i + 1;
            }
            let r = Address { bytes };
            assert(r@ =~= b@.subrange(12, 32));
            r
        } else {
            proxy.clone()
        },
        None => proxy.clone(),
    }
}


/// The running monitors, by id, each with the handle that keeps it alive
/// and lets it be cancelled.
#[verifier::reject_recursive_types(H)]
pub struct MonitorRegistry<H> {
    monitors: StringHashMap<H>,
}

impl<H> View for MonitorRegistry<H> {
    type V = Map<Seq<char>, H>;

    closed spec fn view(&self) -> Map<Seq<char>, H> {
        self.monitors@
    }
}

impl<H> MonitorRegistry<H> {
    /// A registry with no monitors.
    pub fn new() -> (r: MonitorRegistry<H>)
        ensures
            r@ == Map::<Seq<char>, H>::empty(),
    {
        MonitorRegistry { monitors: StringHashMap::new() }
    }

    /// Records a started monitor under a fresh id. An id already in use is
    /// refused and its monitor kept: `false`, the registry unchanged.
    pub fn register(&mut self, id: String, handle: H) -> (r: bool)
        ensures
            r == !old(self)@.contains_key(id@),
            r ==> final(self)@ == old(self)@.insert(id@, handle),
            !r ==> final(self)@ == old(self)@,
    {
        if self.monitors.contains_key(id.as_str()) {
            return false;
        }
        self.monitors.insert(id, handle);
        true
    }

    /// The handle of a monitor.
    pub fn lookup(&self, id: &str) -> (r: Option<&H>)
        ensures
            match r {
                Some(h) => self@.contains_key(id@) && *h == self@[id@],
                None => !self@.contains_key(id@),
            },
    {
        self.monitors.get(id)
    }

    /// Forgets a monitor; whether it was there.
    pub fn deregister(&mut self, id: &str) -> (r: bool)
        ensures
            r == old(self)@.contains_key(id@),
            final(self)@ == old(self)@.remove(id@),
    {
        let present = self.monitors.contains_key(id);
        self.monitors.remove(id);
        present
    }

    /// How many monitors are registered.
    pub fn len(&self) -> (r: usize)
        ensures
            r == self@.len(),
    {
        self.monitors.len()
    }
}

} // verus!
