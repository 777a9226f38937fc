//! Contract interface descriptions and the values decoded against them.

use vstd::prelude::*;
use alloy::dyn_abi::{DynSolEvent, DynSolType, DynSolValue};
use alloy::primitives::B256;
use crate::primitives::{
    Address, U256, checksum_string, checksum_text, decimal_string, decimal_text, hex_string,
    hex_text, keccak256, keccak_of, signed_decimal_string, signed_decimal_text,
};

verus! {

/// A value decoded from call data, an event topic or an event body.
pub enum Value {
    Bool(bool),
    /// Two's-complement word and declared bit size.
    Int(U256, usize),
    Uint(U256, usize),
    /// The 32-byte word holding the bytes, and the declared size.
    FixedBytes([u8; 32], usize),
    Address(Address),
    Bytes(Vec<u8>),
    Str(String),
    Array(Vec<Value>),
    FixedArray(Vec<Value>),
    Tuple(Vec<Value>),
    /// Any other kind, kept as its debug rendering.
    Other(String),
}

/// The rendering of a decoded value: scalars in their usual text form,
/// arrays in brackets and tuples in parentheses, elements joined by `", "`.
pub open spec fn value_text(v: Value) -> Seq<char>
    decreases v,
{
    match v {
        Value::Bool(b) => if b {
            seq!['t', 'r', 'u', 'e']
        } else {
            seq!['f', 'a', 'l', 's', 'e']
        },
        Value::Int(n, _) => signed_decimal_text(n.value()),
        Value::Uint(n, _) => decimal_text(n.value()),
        Value::FixedBytes(w, _) => hex_text(w@),
        Value::Address(a) => checksum_text(a@),
        Value::Bytes(b) => hex_text(b@),
        Value::Str(s) => s@,
        Value::Array(a) => seq!['['] + list_text(a@) + seq![']'],
        Value::FixedArray(a) => seq!['['] + list_text(a@) + seq![']'],
        Value::Tuple(a) => seq!['('] + list_text(a@) + seq![')'],
        Value::Other(s) => s@,
    }
}

/// The renderings of a list of values, joined by `", "`.
pub open spec fn list_text(s: Seq<Value>) -> Seq<char>
    decreases s,
{
    if s.len() == 0 {
        seq![]
    } else if s.len() == 1 {
        value_text(s[0])
    } else {
        list_text(s.subrange(0, s.len() - 1)) + seq![',', ' '] + value_text(s[s.len() - 1])
    }
}

/// Renders a decoded value as text; the same value always gives the same text.
pub fn format_value(val: &Value) -> (r: String)
    ensures
        r@ == value_text(*val),
        val is Address ==> r@.len() == 42 && r@[0] == '0' && r@[1] == 'x',
    decreases val,
{
    match val {
        Value::Bool(b) => {
            let mut s = String::new();
            if *b {
                s.append("true");
                proof { reveal_strlit("true"); }
                assert(s@ =~= seq!['t', 'r', 'u', 'e']);
            } else {
                s.append("false");
                proof { reveal_strlit("false"); }
                assert(s@ =~= seq!['f', 'a', 'l', 's', 'e']);
            }
            s
        },
        Value::Int(n, _) => signed_decimal_string(n),
        Value::Uint(n, _) => decimal_string(n),
        Value::FixedBytes(w, _) => hex_string(w.as_slice()),
        Value::Address(a) => checksum_string(a),
        Value::Bytes(b) => hex_string(b.as_slice()),
        Value::Str(s) => s.clone(),
        Value::Array(a) => {
            let mut s = String::new();
            s.append("[");
            let inner = format_list(val, a);
            s.append(inner.as_str());
            s.append("]");
            proof { reveal_strlit("["); reveal_strlit("]"); }
            assert(s@ =~= seq!['['] + list_text(a@) + seq![']']);
            s
        },
        Value::FixedArray(a) => {
            let mut s = String::new();
            s.append("[");
            let inner = format_list(val, a);
            s.append(inner.as_str());
            s.append("]");
            proof { reveal_strlit("["); reveal_strlit("]"); }
            assert(s@ =~= seq!['['] + list_text(a@) + seq![']']);
            s
        },
        Value::Tuple(a) => {
            let mut s = String::new();
            s.append("(");
            let inner = format_list(val, a);
            s.append(inner.as_str());
            s.append(")");
            proof { reveal_strlit("("); reveal_strlit(")"); }
            assert(s@ =~= seq!['('] + list_text(a@) + seq![')']);
            s
        },
        Value::Other(s) => s.clone(),
    }
}

/// Renders the elements of a list held by `parent`, joined by `", "`.
fn format_list(parent: &Value, items: &Vec<Value>) -> (r: String)
    requires
        parent matches Value::Array(a) ==> a == items,
        parent matches Value::FixedArray(a) ==> a == items,
        parent matches Value::Tuple(a) ==> a == items,
        parent is Array || parent is FixedArray || parent is Tuple,
    ensures
        r@ == list_text(items@),
    decreases parent, 0nat,
{
    let mut s = String::new();
    let mut i: usize = 0;
    while i < items.len()
        invariant
            0 <= i <= items.len(),
            s@ == list_text(items@.subrange(0, i as int)),
            parent matches Value::Array(a) ==> a == items,
            parent matches Value::FixedArray(a) ==> a == items,
            parent matches Value::Tuple(a) ==> a == items,
            parent is Array || parent is FixedArray || parent is Tuple,
        decreases items.len() - i,
    {
        proof {
            assert(decreases_to!(items => items[i as int]));
        }
        let t = format_value(&items[i]);
        let ghost prefix = items@.subrange(0, i as int + 1);
        assert(prefix.subrange(0, prefix.len() - 1) =~= items@.subrange(0, i as int));
        assert(prefix[prefix.len() - 1] == items@[i as int]);
        if i > 0 {
            s.append(", ");
            proof { reveal_strlit(", "); }
        }
        s.append(t.as_str());
        assert(s@ =~= list_text(prefix));
        i = i + 1;
    }
    assert(items@.subrange(0, items.len() as int) =~= items@);
    s
}


/// Formatting has no hidden state: rendering equal values gives equal text,
/// so rendering one value twice gives the same text both times.
pub proof fn formatting_is_deterministic(v: Value, w: Value)
    requires
        v == w,
    ensures
        value_text(v) == value_text(w),
{
}

/// One declared input of a function or event.
pub struct AbiParam {
    pub name: String,
    /// The canonical type, as it appears in a signature (`uint256`,
    /// `(address,bytes)[]`).
    pub ty: String,
    /// For event inputs: carried in a topic rather than in the data.
    pub indexed: bool,
}

/// A function of a contract interface.
pub struct AbiFunction {
    pub name: String,
    pub inputs: Vec<AbiParam>,
}

/// An event of a contract interface.
pub struct AbiEvent {
    pub name: String,
    pub inputs: Vec<AbiParam>,
    pub anonymous: bool,
}

/// A contract interface: its functions and events, in declaration order.
pub struct ContractAbi {
    pub functions: Vec<AbiFunction>,
    pub events: Vec<AbiEvent>,
}

/// The types of a parameter list, joined by commas.
pub open spec fn types_text(ps: Seq<AbiParam>) -> Seq<char>
    decreases ps.len(),
{
    if ps.len() == 0 {
        seq![]
    } else if ps.len() == 1 {
        ps[0].ty@
    } else {
        types_text(ps.drop_last()) + seq![','] + ps.last().ty@
    }
}

/// `name(type1,type2,...)`, the text whose digest gives selectors.
pub open spec fn signature_text(name: Seq<char>, ps: Seq<AbiParam>) -> Seq<char> {
    name + seq!['('] + types_text(ps) + seq![')']
}

/// The UTF-8 bytes of a text.
pub open spec fn utf8(s: Seq<char>) -> Seq<u8> {
    vstd::utf8::encode_utf8(s)
}

/// The first four bytes of the digest of a function's signature.
pub open spec fn function_selector(f: AbiFunction) -> Seq<u8> {
    keccak_of(utf8(signature_text(f.name@, f.inputs@))).subrange(0, 4)
}

/// The digest of an event's signature, its first topic when not anonymous.
pub open spec fn event_topic(e: AbiEvent) -> Seq<u8> {
    keccak_of(utf8(signature_text(e.name@, e.inputs@)))
}

/// Builds `name(type1,...)` for a parameter list.
pub fn signature(name: &String, inputs: &Vec<AbiParam>) -> (r: String)
    ensures
        r@ == signature_text(name@, inputs@),
{
    let mut s = String::new();
    s.append(name.as_str());
    s.append("(");
    proof { reveal_strlit("("); }
    assert(types_text(inputs@.subrange(0, 0)) =~= seq![]);
    assert(s@ =~= name@ + seq!['('] + types_text(inputs@.subrange(0, 0)));
    let mut i: usize = 0;
    while i < inputs.len()
        invariant
            0 <= i <= inputs.len(),
            s@ == name@ + seq!['('] + types_text(inputs@.subrange(0, i as int)),
        decreases inputs.len() - i,
    {
        let ghost before = s@;
        let ghost prefix = inputs@.subrange(0, i as int + 1);
        assert(prefix.drop_last() =~= inputs@.subrange(0, i as int));
        if i > 0 {
            s.append(",");
            proof { reveal_strlit(","); }
        }
        s.append(inputs[i].ty.as_str());
        assert(s@ =~= name@ + seq!['('] + types_text(prefix));
        i = i + 1;
    }
    s.append(")");
    proof { reveal_strlit("("); reveal_strlit(")"); }
    assert(inputs@.subrange(0, inputs.len() as int) =~= inputs@);
    assert(s@ =~= signature_text(name@, inputs@));
    s
}

impl AbiFunction {
    /// The four-byte selector that prefixes call data for this function.
    pub fn selector(&self) -> (r: Vec<u8>)
        ensures
            r@ == function_selector(*self),
            r@.len() == 4,
    {
        let sig = signature(&self.name, &self.inputs);
        let digest = keccak256(sig.as_str().as_bytes());
        let mut r: Vec<u8> = Vec::new();
        let mut i: usize = 0;
        while i < 4
            invariant
                0 <= i <= 4,
                digest@ == keccak_of(utf8(sig@)),
                digest@.len() == 32,
                r@ == digest@.subrange(0, i as int),
            decreases 4 - i,
        {
            r.push(digest[i]);
            assert(r@ =~= digest@.subrange(0, i as int + 1));
            i = i + 1;
        }
        r
    }
}

impl AbiEvent {
    /// The 32-byte topic that identifies this event's logs.
    pub fn topic(&self) -> (r: [u8; 32])
        ensures
            r@ == event_topic(*self),
    {
        let sig = signature(&self.name, &self.inputs);
        keccak256(sig.as_str().as_bytes())
    }
}


#[verifier::external_type_specification]
#[verifier::external_body]
pub struct ExDynSolValue(DynSolValue);

/// The views of a list of type texts.
pub open spec fn type_texts(ts: Seq<String>) -> Seq<Seq<char>> {
    ts.map_values(|t: String| t@)
}

/// The views of a list of 32-byte words.
pub open spec fn word_views(ws: Seq<[u8; 32]>) -> Seq<Seq<u8>> {
    ws.map_values(|w: [u8; 32]| w@)
}

/// The view of an optional 32-byte word.
pub open spec fn opt_word_view(w: Option<[u8; 32]>) -> Option<Seq<u8>> {
    match w {
        Some(x) => Some(x@),
        None => None,
    }
}

/// What ABI decoding of `data` as a sequence of the given types yields;
/// `None` where a type text is unknown or the data does not fit the types.
pub uninterp spec fn call_args_of(types: Seq<Seq<char>>, data: Seq<u8>) -> Option<Seq<Value>>;

/// What decoding a log yields for an event with the given first topic (none
/// when anonymous), indexed input types and body input types: the indexed
/// values and the body values, or the text of the error.
pub uninterp spec fn event_fields_of(
    topic0: Option<Seq<u8>>,
    indexed: Seq<Seq<char>>,
    body: Seq<Seq<char>>,
    topics: Seq<Seq<u8>>,
    data: Seq<u8>,
) -> Result<(Seq<Value>, Seq<Value>), Seq<char>>;

/// Moves a decoded alloy value into the library's own value type, one
/// variant for another; lists element by element.
#[verifier::external_body]
fn value_from_dyn(v: &DynSolValue) -> Value {
    match v {
        DynSolValue::Array(a) => Value::Array(values_from_dyn(a)),
        DynSolValue::FixedArray(a) => Value::FixedArray(values_from_dyn(a)),
        DynSolValue::Tuple(a) => Value::Tuple(values_from_dyn(a)),
        other => scalar_from_dyn(other),
    }
}

/// Moves a decoded alloy scalar into the library's own value type; kinds
/// without a counterpart keep their debug text.
#[verifier::external_body]
fn scalar_from_dyn(v: &DynSolValue) -> Value {
    match v {
        DynSolValue::Bool(b) => Value::Bool(*b),
        DynSolValue::Int(i, n) => Value::Int(U256 { limbs: i.into_raw().into_limbs() }, *n),
        DynSolValue::Uint(u, n) => Value::Uint(U256 { limbs: u.into_limbs() }, *n),
        DynSolValue::FixedBytes(w, n) => Value::FixedBytes(w.0, *n),
        DynSolValue::Address(a) => Value::Address(Address { bytes: a.into_array() }),
        DynSolValue::Bytes(b) => Value::Bytes(b.clone()),
        DynSolValue::String(s) => Value::Str(s.clone()),
        other => Value::Other(format!("{other:?}")),
    }
}

/// Moves a list of decoded alloy values into the library's value type.
#[verifier::external_body]
fn values_from_dyn(vs: &[DynSolValue]) -> Vec<Value> {
    vs.iter().map(value_from_dyn).collect()
}

/// Relies on alloy's `DynSolType::parse` for each type text and
/// `DynSolType::abi_decode_sequence` for the tuple of them: the result
/// depends on the type texts and the data alone, and a success holds one
/// value per type.
#[verifier::external_body]
pub(crate) fn decode_call_args(types: &Vec<String>, data: &[u8]) -> (r: Option<Vec<Value>>)
    ensures
        r is Some <==> call_args_of(type_texts(types@), data@) is Some,
        r is Some ==> r->0@ == call_args_of(type_texts(types@), data@)->0,
        r is Some ==> r->0@.len() == types@.len(),
{
    let tys: Option<Vec<DynSolType>> = types.iter().map(|t| DynSolType::parse(t).ok()).collect();
    let decoded = DynSolType::Tuple(tys?).abi_decode_sequence(data).ok()?;
    decoded.as_tuple().map(values_from_dyn)
}

/// The values decoded from a log: those of indexed inputs, from the topics,
/// and those of the other inputs, from the data.
pub struct EventFields {
    pub indexed: Vec<Value>,
    pub body: Vec<Value>,
}

/// Relies on alloy's `DynSolType::parse` for each type text and
/// `DynSolEvent::decode_log_parts`: the result depends on the arguments alone.
#[verifier::external_body]
pub(crate) fn decode_event_fields(topic0: Option<[u8; 32]>, indexed: &Vec<String>, body: &Vec<String>, topics: &Vec<[u8; 32]>, data: &[u8]) -> (r: Result<EventFields, String>)
    ensures
        r is Ok <==> event_fields_of(opt_word_view(topic0), type_texts(indexed@), type_texts(body@), word_views(topics@), data@) is Ok,
        r is Ok ==> event_fields_of(opt_word_view(topic0), type_texts(indexed@), type_texts(body@), word_views(topics@), data@)->Ok_0 == (r->Ok_0.indexed@, r->Ok_0.body@),
        r is Err ==> event_fields_of(opt_word_view(topic0), type_texts(indexed@), type_texts(body@), word_views(topics@), data@)->Err_0 == r->Err_0@,
{
    let ty = |ts: &Vec<String>| ts.iter().map(|t| DynSolType::parse(t)).collect::<alloy::dyn_abi::Result<Vec<_>>>();
    let run = || DynSolEvent::new_unchecked(topic0.map(B256::from), ty(indexed)?, DynSolType::Tuple(ty(body)?))
        .decode_log_parts(topics.iter().map(|t| B256::from(*t)), data);
    run().map(|d| EventFields { indexed: values_from_dyn(&d.indexed), body: values_from_dyn(&d.body) }).map_err(|e| e.to_string())
}

} // verus!
