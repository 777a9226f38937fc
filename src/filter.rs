//! Transaction rules: a small closed language of conditions, evaluated
//! against a transaction and the ABI function a rule is bound to.

use vstd::prelude::*;
use crate::abi::{AbiFunction, AbiParam, ContractAbi, Value, call_args_of, decode_call_args, function_selector, type_texts};
use crate::events::{field_line, push_field_line};
use crate::primitives::{Address, U256, address_from_text, hex_string, hex_text, uint_from_text};

verus! {

/// How an `Argument` condition compares the decoded argument with its literal.
#[derive(Clone, Copy, PartialEq, Eq, Structural, Debug)]
pub enum Operator {
    Eq,
    Gt,
    Lt,
    /// Address equality: the decoded address is the literal's address.
    Contains,
}

/// One condition of a rule.
pub enum Condition {
    /// The sender is this address.
    From(Address),
    /// The recipient is the address this text denotes.
    To(String),
    /// The call is to the bound function, which has this name.
    Function(String),
    /// The decoded argument of this name compares with the literal.
    Argument { name: String, operator: Operator, value: String },
}

/// A named conjunction of conditions, with the ABI function it is bound to.
pub struct MonitorRule {
    pub name: String,
    pub conditions: Vec<Condition>,
    pub abi_function: Option<AbiFunction>,
}

/// The parts of a transaction that rules and alerts read.
pub struct Transaction {
    pub hash: [u8; 32],
    pub from: Address,
    pub to: Option<Address>,
    pub input: Vec<u8>,
}

/// Whether a decoded value compares with a literal: numbers under
/// `Eq`/`Gt`/`Lt` against the literal read as a number, addresses under
/// `Contains` against the literal read as an address; anything else fails.
pub open spec fn value_matches(actual: Value, op: Operator, text: Seq<char>) -> bool {
    match actual {
        Value::Uint(n, _) => match uint_from_text(text) {
            Some(t) => match op {
                Operator::Gt => n.value() > t,
                Operator::Lt => n.value() < t,
                Operator::Eq => n.value() == t,
                Operator::Contains => false,
            },
            None => false,
        },
        Value::Address(a) => match address_from_text(text) {
            Some(b) => op == Operator::Contains && a@ == b,
            None => false,
        },
        _ => false,
    }
}

/// Compares a decoded value with a literal; see `value_matches`.
pub fn check_value(actual_value: &Value, operator: &Operator, value: &str) -> (r: bool)
    ensures
        r == value_matches(*actual_value, *operator, value@),
{
    match actual_value {
        Value::Uint(n, _) => match U256::parse(value) {
            Some(target) => {
                let c = n.compare(&target);
                match operator {
                    Operator::Gt => c == 1,
                    Operator::Lt => c == -1,
                    Operator::Eq => c == 0,
                    Operator::Contains => false,
                }
            },
            None => false,
        },
        Value::Address(a) => match Address::parse(value) {
            Some(target) => match operator {
                Operator::Contains => a.same(&target),
                _ => false,
            },
            None => false,
        },
        _ => false,
    }
}

/// The position of the first parameter with this name.
pub open spec fn param_index(ps: Seq<AbiParam>, name: Seq<char>) -> Option<int>
    decreases ps.len(),
{
    if ps.len() == 0 {
        None
    } else {
        match param_index(ps.drop_last(), name) {
            Some(i) => Some(i),
            None => if ps.last().name@ == name {
                Some(ps.len() - 1)
            } else {
                None
            },
        }
    }
}

proof fn lemma_param_index_extends(ps: Seq<AbiParam>, name: Seq<char>, k: int)
    requires
        0 <= k <= ps.len(),
        param_index(ps.subrange(0, k), name) is Some,
    ensures
        param_index(ps, name) == param_index(ps.subrange(0, k), name),
    decreases ps.len() - k,
{
    if k < ps.len() {
        let next = ps.subrange(0, k + 1);
        assert(next.drop_last() =~= ps.subrange(0, k));
        lemma_param_index_extends(ps, name, k + 1);
    } else {
        assert(ps.subrange(0, k) =~= ps);
    }
}

/// The declared types of a parameter list.
pub open spec fn param_types(ps: Seq<AbiParam>) -> Seq<Seq<char>> {
    ps.map_values(|p: AbiParam| p.ty@)
}

/// The call data after the four-byte selector.
pub open spec fn call_body(input: Seq<u8>) -> Seq<u8> {
    input.subrange(4, input.len() as int)
}

/// The decoded call argument of this name, for a rule bound to `f`: present
/// when the rule is bound, the input holds a selector, the rest decodes
/// against the function's inputs and one of them has the name.
pub open spec fn argument_value(f: Option<AbiFunction>, name: Seq<char>, tx: Transaction) -> Option<Value> {
    match f {
        Some(func) => if tx.input@.len() >= 4 {
            match call_args_of(param_types(func.inputs@), call_body(tx.input@)) {
                Some(args) => match param_index(func.inputs@, name) {
                    Some(i) => if i < args.len() {
                        Some(args[i])
                    } else {
                        None
                    },
                    None => None,
                },
                None => None,
            }
        } else {
            None
        },
        None => None,
    }
}

/// Whether one condition holds of a transaction, for a rule bound to `f`.
/// `Function` and `Argument` need a binding and at least four bytes of input.
pub open spec fn condition_holds(f: Option<AbiFunction>, c: Condition, tx: Transaction) -> bool {
    match c {
        Condition::From(a) => tx.from@ == a@,
        Condition::To(s) => match address_from_text(s@) {
            Some(b) => tx.to is Some && tx.to->0@ == b,
            None => false,
        },
        Condition::Function(name) => match f {
            Some(func) => func.name@ == name@ && tx.input@.len() >= 4
                && tx.input@.subrange(0, 4) == function_selector(func),
            None => false,
        },
        Condition::Argument { name, operator, value } => match argument_value(f, name@, tx) {
            Some(v) => value_matches(v, operator, value@),
            None => false,
        },
    }
}

/// A rule matches a transaction when every condition holds.
pub open spec fn rule_matches(rule: MonitorRule, tx: Transaction) -> bool {
    forall|i: int| 0 <= i < rule.conditions@.len() ==> #[trigger] condition_holds(rule.abi_function, rule.conditions@[i], tx)
}

/// Finds the first parameter with this name.
fn find_param(ps: &Vec<AbiParam>, name: &String) -> (r: Option<usize>)
    ensures
        r is Some <==> param_index(ps@, name@) is Some,
        r matches Some(k) ==> param_index(ps@, name@) == Some(k as int) && k < ps@.len(),
{
    let mut i: usize = 0;
    assert(ps@.subrange(0, 0).len() == 0);
    while i < ps.len()
        invariant
            0 <= i <= ps.len(),
            param_index(ps@.subrange(0, i as int), name@) is None,
        decreases ps.len() - i,
    {
        let ghost next = ps@.subrange(0, i as int + 1);
        assert(next.drop_last() =~= ps@.subrange(0, i as int));
        if ps[i].name == *name {
            proof {
                lemma_param_index_extends(ps@, name@, i as int + 1);
            }
            return Some(i);
        }
        i = i + 1;
    }
    assert(ps@.subrange(0, ps.len() as int) =~= ps@);
    None
}

/// The declared types of a parameter list, as texts.
fn input_types(ps: &Vec<AbiParam>) -> (r: Vec<String>)
    ensures
        type_texts(r@) == param_types(ps@),
        r@.len() == ps@.len(),
{
    let mut r: Vec<String> = Vec::new();
    let mut i: usize = 0;
    while i < ps.len()
        invariant
            0 <= i <= ps.len(),
            r@.len() == i,
            forall|j: int| 0 <= j < i ==> #[trigger] r@[j]@ == ps@[j].ty@,
        decreases ps.len() - i,
    {
        r.push(ps[i].ty.clone());
        i = i + 1;
    }
    assert(type_texts(r@) =~= param_types(ps@));
    r
}

/// Whether the first four bytes of `input` are `sel`.
fn starts_with(input: &Vec<u8>, sel: &Vec<u8>) -> (r: bool)
    requires
        sel@.len() == 4,
    ensures
        r == (input@.len() >= 4 && input@.subrange(0, 4) == sel@),
{
    if input.len() < 4 {
        return false;
    }
    let mut i: usize = 0;
    while i < 4
        invariant
            0 <= i <= 4,
            input@.len() >= 4,
            sel@.len() == 4,
            forall|j: int| 0 <= j < i ==> input@[j] == sel@[j],
        decreases 4 - i,
    {
        if input[i] != sel[i] {
            assert(input@.subrange(0, 4)[i as int] != sel@[i as int]);
            return false;
        }
        i = i + 1;
    }
    assert(input@.subrange(0, 4) =~= sel@);
    true
}

impl MonitorRule {
    /// Whether one condition holds of a transaction under this rule's binding.
    fn condition_match(&self, c: &Condition, tx: &Transaction) -> (r: bool)
        ensures
            r == condition_holds(self.abi_function, *c, *tx),
    {
        match c {
            Condition::From(expected) => tx.from.same(expected),
            Condition::To(expected) => match Address::parse(expected.as_str()) {
                Some(target) => match &tx.to {
                    Some(to) => to.same(&target),
                    None => false,
                },
                None => false,
            },
            Condition::Function(expected) => match &self.abi_function {
                Some(func) => {
                    if !(func.name == *expected) {
                        return false;
                    }
                    let sel = func.selector();
                    starts_with(&tx.input, &sel)
                },
                None => false,
            },
            Condition::Argument { name, operator, value } => {
                let func = match &self.abi_function {
                    Some(f) => f,
                    None => return false,
                };
                // a plain value transfer carries no call to decode
                if tx.input.len() < 4 {
                    return false;
                }
                let input = tx.input.as_slice();
                let data = &input[4..input.len()];
                assert(data@ == call_body(tx.input@));
                let types = input_types(&func.inputs);
                match decode_call_args(&types, data) {
                    Some(args) => match find_param(&func.inputs, name) {
                        Some(idx) => check_value(&args[idx], operator, value.as_str()),
                        None => false,
                    },
                    None => false,
                }
            },
        }
    }

    /// Whether the transaction satisfies every condition of this rule.
    pub fn tx_match(&self, tx: &Transaction) -> (r: bool)
        ensures
            r == rule_matches(*self, *tx),
    {
        let mut i: usize = 0;
        while i < self.conditions.len()
            invariant
                0 <= i <= self.conditions.len(),
                forall|j: int| 0 <= j < i ==> #[trigger] condition_holds(self.abi_function, self.conditions@[j], *tx),
            decreases self.conditions.len() - i,
        {
            if !self.condition_match(&self.conditions[i], tx) {
                return false;
            }
            i = i + 1;
        }
        true
    }
}


/// The name of the first `Function` condition.
pub open spec fn target_function(cs: Seq<Condition>) -> Option<Seq<char>>
    decreases cs.len(),
{
    if cs.len() == 0 {
        None
    } else {
        match target_function(cs.drop_last()) {
            Some(n) => Some(n),
            None => match cs.last() {
                Condition::Function(n) => Some(n@),
                _ => None,
            },
        }
    }
}

proof fn lemma_target_extends(cs: Seq<Condition>, k: int)
    requires
        0 <= k <= cs.len(),
        target_function(cs.subrange(0, k)) is Some,
    ensures
        target_function(cs) == target_function(cs.subrange(0, k)),
    decreases cs.len() - k,
{
    if k < cs.len() {
        assert(cs.subrange(0, k + 1).drop_last() =~= cs.subrange(0, k));
        lemma_target_extends(cs, k + 1);
    } else {
        assert(cs.subrange(0, k) =~= cs);
    }
}

/// The position of the first function with this name.
pub open spec fn function_index(fs: Seq<AbiFunction>, name: Seq<char>) -> Option<int>
    decreases fs.len(),
{
    if fs.len() == 0 {
        None
    } else {
        match function_index(fs.drop_last(), name) {
            Some(i) => Some(i),
            None => if fs.last().name@ == name {
                Some(fs.len() - 1)
            } else {
                None
            },
        }
    }
}

proof fn lemma_function_index_extends(fs: Seq<AbiFunction>, name: Seq<char>, k: int)
    requires
        0 <= k <= fs.len(),
        function_index(fs.subrange(0, k), name) is Some,
    ensures
        function_index(fs, name) == function_index(fs.subrange(0, k), name),
    decreases fs.len() - k,
{
    if k < fs.len() {
        assert(fs.subrange(0, k + 1).drop_last() =~= fs.subrange(0, k));
        lemma_function_index_extends(fs, name, k + 1);
    } else {
        assert(fs.subrange(0, k) =~= fs);
    }
}

/// The function a rule binds to: the first one in the interface named by
/// the rule's first `Function` condition.
pub open spec fn binding_of(cs: Seq<Condition>, abi: ContractAbi) -> Option<int> {
    match target_function(cs) {
        Some(n) => function_index(abi.functions@, n),
        None => None,
    }
}

/// Two function descriptions that agree on what selectors and decoding read.
pub open spec fn same_function(a: AbiFunction, b: AbiFunction) -> bool {
    a.name@ == b.name@ && a.inputs@ == b.inputs@
}

impl AbiParam {
    pub fn duplicate(&self) -> (r: AbiParam)
        ensures
            r == *self,
    {
        AbiParam { name: self.name.clone(), ty: self.ty.clone(), indexed: self.indexed }
    }
}

impl AbiFunction {
    pub fn duplicate(&self) -> (r: AbiFunction)
        ensures
            same_function(r, *self),
    {
        let mut inputs: Vec<AbiParam> = Vec::new();
        let mut i: usize = 0;
        while i < self.inputs.len()
            invariant
                0 <= i <= self.inputs.len(),
                inputs@ == self.inputs@.subrange(0, i as int),
            decreases self.inputs.len() - i,
        {
            inputs.push(self.inputs[i].duplicate());
            assert(inputs@ =~= self.inputs@.subrange(0, i as int + 1));
            i = i + 1;
        }
        assert(inputs@ =~= self.inputs@);
        AbiFunction { name: self.name.clone(), inputs }
    }
}

/// The name of the first `Function` condition of a list.
fn find_target(cs: &Vec<Condition>) -> (r: Option<String>)
    ensures
        r is Some <==> target_function(cs@) is Some,
        r is Some ==> r->0@ == target_function(cs@)->0,
{
    let mut i: usize = 0;
    assert(cs@.subrange(0, 0).len() == 0);
    while i < cs.len()
        invariant
            0 <= i <= cs.len(),
            target_function(cs@.subrange(0, i as int)) is None,
        decreases cs.len() - i,
    {
        assert(cs@.subrange(0, i as int + 1).drop_last() =~= cs@.subrange(0, i as int));
        match &cs[i] {
            Condition::Function(name) => {
                proof {
                    lemma_target_extends(cs@, i as int + 1);
                }
                return Some(name.clone());
            },
            _ => {},
        }
        i = i + 1;
    }
    assert(cs@.subrange(0, cs.len() as int) =~= cs@);
    None
}

/// The first function of the interface with this name.
fn find_function(fs: &Vec<AbiFunction>, name: &String) -> (r: Option<usize>)
    ensures
        r is Some <==> function_index(fs@, name@) is Some,
        r matches Some(k) ==> function_index(fs@, name@) == Some(k as int) && k < fs@.len(),
{
    let mut i: usize = 0;
    assert(fs@.subrange(0, 0).len() == 0);
    while i < fs.len()
        invariant
            0 <= i <= fs.len(),
            function_index(fs@.subrange(0, i as int), name@) is None,
        decreases fs.len() - i,
    {
        assert(fs@.subrange(0, i as int + 1).drop_last() =~= fs@.subrange(0, i as int));
        if fs[i].name == *name {
            proof {
                lemma_function_index_extends(fs@, name@, i as int + 1);
            }
            return Some(i);
        }
        i = i + 1;
    }
    assert(fs@.subrange(0, fs.len() as int) =~= fs@);
    None
}

/// Binds each rule to the first interface function named by its first
/// `Function` condition. A rule with no such condition, or whose name the
/// interface lacks, keeps the binding it had.
pub fn map_rules_to_abi(rules: Vec<MonitorRule>, abi: &ContractAbi) -> (r: Vec<MonitorRule>)
    ensures
        r@.len() == rules@.len(),
        forall|i: int| 0 <= i < r@.len() ==> {
            &&& (#[trigger] r@[i]).name == rules@[i].name
            &&& r@[i].conditions == rules@[i].conditions
            &&& match binding_of(rules@[i].conditions@, *abi) {
                Some(j) => r@[i].abi_function matches Some(g) && same_function(g, abi.functions@[j]),
                None => r@[i].abi_function == rules@[i].abi_function,
            }
        },
{
    let mut rules = rules;
    let ghost orig = rules@;
    let mut out: Vec<MonitorRule> = Vec::new();
    while rules.len() > 0
        invariant
            out@.len() + rules@.len() == orig.len(),
            rules@ == orig.subrange(out@.len() as int, orig.len() as int),
            forall|i: int| 0 <= i < out@.len() ==> {
                &&& (#[trigger] out@[i]).name == orig[i].name
                &&& out@[i].conditions == orig[i].conditions
                &&& match binding_of(orig[i].conditions@, *abi) {
                    Some(j) => out@[i].abi_function matches Some(g) && same_function(g, abi.functions@[j]),
                    None => out@[i].abi_function == orig[i].abi_function,
                }
            },
        decreases rules@.len(),
    {
        let mut rule = rules.remove(0);
        let ghost k = out@.len() as int;
        assert(rule == orig[k]);
        match find_target(&rule.conditions) {
            Some(name) => match find_function(&abi.functions, &name) {
                Some(j) => {
                    rule.abi_function = Some(abi.functions[j].duplicate());
                },
                None => {},
            },
            None => {},
        }
        out.push(rule);
        assert(rules@ =~= orig.subrange(out@.len() as int, orig.len() as int));
    }
    out
}

/// The positions of the rules that match a transaction, in order.
pub open spec fn matching_positions(rules: Seq<MonitorRule>, tx: Transaction, n: int) -> Seq<usize>
    decreases n,
{
    if n <= 0 {
        seq![]
    } else if rule_matches(rules[n - 1], tx) {
        matching_positions(rules, tx, n - 1).push((n - 1) as usize)
    } else {
        matching_positions(rules, tx, n - 1)
    }
}

/// Every rule that matches the transaction, by position: each match is
/// reported, none is dropped for an earlier one.
pub fn matching_rules(rules: &Vec<MonitorRule>, tx: &Transaction) -> (r: Vec<usize>)
    ensures
        r@ == matching_positions(rules@, *tx, rules@.len() as int),
{
    let mut r: Vec<usize> = Vec::new();
    let mut i: usize = 0;
    while i < rules.len()
        invariant
            0 <= i <= rules.len(),
            r@ == matching_positions(rules@, *tx, i as int),
        decreases rules.len() - i,
    {
        if rules[i].tx_match(tx) {
            r.push(i);
        }
        i = i + 1;
    }
    r
}

/// A rule is the conjunction of its conditions: with a sender condition
/// and a "greater than" argument condition it matches exactly when the
/// sender is that address and the named argument decodes to a number above
/// the literal's; if either fails, the rule fails.
pub proof fn sender_and_argument_rule(rule: MonitorRule, tx: Transaction, sender: Address, arg: String, literal: String)
    requires
        rule.conditions@ == seq![
            Condition::From(sender),
            Condition::Argument { name: arg, operator: Operator::Gt, value: literal },
        ],
    ensures
        rule_matches(rule, tx) <==> {
            &&& tx.from@ == sender@
            &&& argument_value(rule.abi_function, arg@, tx) matches Some(Value::Uint(n, _))
            &&& uint_from_text(literal@) matches Some(t)
            &&& n.value() > t
        },
        tx.from@ != sender@ ==> !rule_matches(rule, tx),
        !condition_holds(rule.abi_function, rule.conditions@[1], tx) ==> !rule_matches(rule, tx),
{
    let c0 = rule.conditions@[0];
    let c1 = rule.conditions@[1];
    if rule_matches(rule, tx) {
        assert(condition_holds(rule.abi_function, c0, tx));
        assert(condition_holds(rule.abi_function, c1, tx));
    }
    if tx.from@ == sender@ && condition_holds(rule.abi_function, c1, tx) {
        assert forall|i: int| 0 <= i < rule.conditions@.len() implies #[trigger] condition_holds(rule.abi_function, rule.conditions@[i], tx) by {
            if i == 0 {
                assert(rule.conditions@[i] == c0);
            } else {
                assert(rule.conditions@[i] == c1);
            }
        }
    }
}

/// A transaction whose input is shorter than a selector (a plain value
/// transfer) satisfies no `Argument` or `Function` condition, so a rule with
/// one never matches it.
pub proof fn short_input_fails_closed(rule: MonitorRule, tx: Transaction, k: int)
    requires
        tx.input@.len() < 4,
        0 <= k < rule.conditions@.len(),
        rule.conditions@[k] is Argument || rule.conditions@[k] is Function,
    ensures
        !condition_holds(rule.abi_function, rule.conditions@[k], tx),
        !rule_matches(rule, tx),
{
    if rule_matches(rule, tx) {
        assert(condition_holds(rule.abi_function, rule.conditions@[k], tx));
    }
}


/// The position of the first interface function with this selector.
pub open spec fn function_with_selector(fs: Seq<AbiFunction>, sel: Seq<u8>) -> Option<int>
    decreases fs.len(),
{
    if fs.len() == 0 {
        None
    } else {
        match function_with_selector(fs.drop_last(), sel) {
            Some(i) => Some(i),
            None => if function_selector(fs.last()) == sel {
                Some(fs.len() - 1)
            } else {
                None
            },
        }
    }
}

proof fn lemma_selector_extends(fs: Seq<AbiFunction>, sel: Seq<u8>, k: int)
    requires
        0 <= k <= fs.len(),
        function_with_selector(fs.subrange(0, k), sel) is Some,
    ensures
        function_with_selector(fs, sel) == function_with_selector(fs.subrange(0, k), sel),
    decreases fs.len() - k,
{
    if k < fs.len() {
        assert(fs.subrange(0, k + 1).drop_last() =~= fs.subrange(0, k));
        lemma_selector_extends(fs, sel, k + 1);
    } else {
        assert(fs.subrange(0, k) =~= fs);
    }
}

fn find_function_by_selector(fs: &Vec<AbiFunction>, sel: &Vec<u8>) -> (r: Option<usize>)
    requires
        sel@.len() == 4,
    ensures
        r is Some <==> function_with_selector(fs@, sel@) is Some,
        r matches Some(k) ==> function_with_selector(fs@, sel@) == Some(k as int) && k < fs@.len(),
{
    let mut i: usize = 0;
    assert(fs@.subrange(0, 0).len() == 0);
    while i < fs.len()
        invariant
            0 <= i <= fs.len(),
            sel@.len() == 4,
            function_with_selector(fs@.subrange(0, i as int), sel@) is None,
        decreases fs.len() - i,
    {
        assert(fs@.subrange(0, i as int + 1).drop_last() =~= fs@.subrange(0, i as int));
        let candidate = fs[i].selector();
        if starts_with(&candidate, sel) {
            assert(candidate@.subrange(0, 4) =~= candidate@);
            proof {
                lemma_selector_extends(fs@, sel@, i as int + 1);
            }
            return Some(i);
        }
        assert(candidate@.subrange(0, 4) =~= candidate@);
        i = i + 1;
    }
    assert(fs@.subrange(0, fs.len() as int) =~= fs@);
    None
}

/// The lines `- name: value` of the first `k` arguments that were decoded.
pub open spec fn args_text(ps: Seq<AbiParam>, args: Seq<Value>, k: int) -> Seq<char>
    decreases k,
{
    if k <= 0 {
        seq![]
    } else {
        args_text(ps, args, k - 1) + if k - 1 < args.len() {
            field_line(ps[k - 1].name@, args[k - 1])
        } else {
            seq![]
        }
    }
}

/// What a transaction's call data says: the interface function its selector
/// names and the decoded arguments, one line each.
pub open spec fn tx_details_text(input: Seq<u8>, abi: ContractAbi) -> Seq<char> {
    if input.len() < 4 {
        "Call: none (plain transfer)"@
    } else {
        match function_with_selector(abi.functions@, input.subrange(0, 4)) {
            None => "Call: unknown selector 0x"@ + hex_text(input.subrange(0, 4)),
            Some(j) => {
                let f = abi.functions@[j];
                match call_args_of(param_types(f.inputs@), call_body(input)) {
                    Some(args) => "Function: "@ + f.name@ + "\n"@ + args_text(f.inputs@, args, f.inputs@.len() as int),
                    None => "Function: "@ + f.name@ + " (Decode Error)"@,
                }
            },
        }
    }
}

/// Renders the call a transaction makes, decoded against the interface.
pub fn get_tx_details(tx: &Transaction, abi: &ContractAbi) -> (r: String)
    ensures
        r@ == tx_details_text(tx.input@, *abi),
{
    let mut out = String::new();
    if tx.input.len() < 4 {
        out.append("Call: none (plain transfer)");
        return out;
    }
    let input = tx.input.as_slice();
    let head = &input[0..4];
    let mut sel: Vec<u8> = Vec::new();
    sel.push(head[0]);
    sel.push(head[1]);
    sel.push(head[2]);
    sel.push(head[3]);
    assert(sel@ =~= tx.input@.subrange(0, 4));
    match find_function_by_selector(&abi.functions, &sel) {
        None => {
            let h = hex_string(head);
            out.append("Call: unknown selector 0x");
            out.append(h.as_str());
            out
        },
        Some(j) => {
            let f = &abi.functions[j];
            let data = &input[4..input.len()];
            assert(data@ == call_body(tx.input@));
            let types = input_types(&f.inputs);
            match decode_call_args(&types, data) {
                Some(args) => {
                    out.append("Function: ");
                    out.append(f.name.as_str());
                    out.append("\n");
                    let mut i: usize = 0;
                    while i < f.inputs.len()
                        invariant
                            0 <= i <= f.inputs.len(),
                            out@ == "Function: "@ + f.name@ + "\n"@ + args_text(f.inputs@, args@, i as int),
                        decreases f.inputs.len() - i,
                    {
                        if i < args.len() {
                            push_field_line(&mut out, &f.inputs[i].name, &args[i]);
                        }
                        i = i + 1;
                    }
                    out
                },
                None => {
                    out.append("Function: ");
                    out.append(f.name.as_str());
                    out.append(" (Decode Error)");
                    out
                },
            }
        },
    }
}

} // verus!
