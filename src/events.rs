//! Logs: choosing the topics to watch, and rendering a log through the
//! interface event it belongs to.

use vstd::prelude::*;
use crate::abi::{
    AbiEvent, AbiParam, ContractAbi, Value, decode_event_fields, event_fields_of, event_topic,
    format_value, type_texts, value_text, word_views,
};
use crate::primitives::{hex_string, hex_text};

verus! {

/// The parts of a log that the engine reads.
pub struct Log {
    pub block_number: Option<u64>,
    pub topics: Vec<[u8; 32]>,
    pub data: Vec<u8>,
}

/// Whether two 32-byte words are equal.
pub fn same_word(a: &[u8; 32], b: &[u8; 32]) -> (r: bool)
    ensures
        r == (a@ == b@),
{
    let mut i: usize = 0;
    while i < 32
        invariant
            0 <= i <= 32,
            a@.len() == 32,
            b@.len() == 32,
            forall|j: int| 0 <= j < i ==> a@[j] == b@[j],
        decreases 32 - i,
    {
        if a[i] != b[i] {
            return false;
        }
        i = i + 1;
    }
    assert(a@ =~= b@);
    true
}

/// The position of the first event with this name.
pub open spec fn event_named(es: Seq<AbiEvent>, name: Seq<char>) -> Option<int>
    decreases es.len(),
{
    if es.len() == 0 {
        None
    } else {
        match event_named(es.drop_last(), name) {
            Some(i) => Some(i),
            None => if es.last().name@ == name {
                Some(es.len() - 1)
            } else {
                None
            },
        }
    }
}

/// The position of the first event whose topic is `topic`.
pub open spec fn event_with_topic(es: Seq<AbiEvent>, topic: Seq<u8>) -> Option<int>
    decreases es.len(),
{
    if es.len() == 0 {
        None
    } else {
        match event_with_topic(es.drop_last(), topic) {
            Some(i) => Some(i),
            None => if event_topic(es.last()) == topic {
                Some(es.len() - 1)
            } else {
                None
            },
        }
    }
}

proof fn lemma_event_named_extends(es: Seq<AbiEvent>, name: Seq<char>, k: int)
    requires
        0 <= k <= es.len(),
        event_named(es.subrange(0, k), name) is Some,
    ensures
        event_named(es, name) == event_named(es.subrange(0, k), name),
    decreases es.len() - k,
{
    if k < es.len() {
        assert(es.subrange(0, k + 1).drop_last() =~= es.subrange(0, k));
        lemma_event_named_extends(es, name, k + 1);
    } else {
        assert(es.subrange(0, k) =~= es);
    }
}

proof fn lemma_event_topic_extends(es: Seq<AbiEvent>, topic: Seq<u8>, k: int)
    requires
        0 <= k <= es.len(),
        event_with_topic(es.subrange(0, k), topic) is Some,
    ensures
        event_with_topic(es, topic) == event_with_topic(es.subrange(0, k), topic),
    decreases es.len() - k,
{
    if k < es.len() {
        assert(es.subrange(0, k + 1).drop_last() =~= es.subrange(0, k));
        lemma_event_topic_extends(es, topic, k + 1);
    } else {
        assert(es.subrange(0, k) =~= es);
    }
}

fn find_event_named(es: &Vec<AbiEvent>, name: &String) -> (r: Option<usize>)
    ensures
        r is Some <==> event_named(es@, name@) is Some,
        r matches Some(k) ==> event_named(es@, name@) == Some(k as int) && k < es@.len(),
{
    let mut i: usize = 0;
    assert(es@.subrange(0, 0).len() == 0);
    while i < es.len()
        invariant
            0 <= i <= es.len(),
            event_named(es@.subrange(0, i as int), name@) is None,
        decreases es.len() - i,
    {
        assert(es@.subrange(0, i as int + 1).drop_last() =~= es@.subrange(0, i as int));
        if es[i].name == *name {
            proof {
                lemma_event_named_extends(es@, name@, i as int + 1);
            }
            return Some(i);
        }
        i = i + 1;
    }
    assert(es@.subrange(0, es.len() as int) =~= es@);
    None
}

fn find_event_with_topic(es: &Vec<AbiEvent>, topic: &[u8; 32]) -> (r: Option<usize>)
    ensures
        r is Some <==> event_with_topic(es@, topic@) is Some,
        r matches Some(k) ==> event_with_topic(es@, topic@) == Some(k as int) && k < es@.len(),
{
    let mut i: usize = 0;
    assert(es@.subrange(0, 0).len() == 0);
    while i < es.len()
        invariant
            0 <= i <= es.len(),
            event_with_topic(es@.subrange(0, i as int), topic@) is None,
        decreases es.len() - i,
    {
        assert(es@.subrange(0, i as int + 1).drop_last() =~= es@.subrange(0, i as int));
        let t = es[i].topic();
        if same_word(&t, topic) {
            proof {
                lemma_event_topic_extends(es@, topic@, i as int + 1);
            }
            return Some(i);
        }
        i = i + 1;
    }
    assert(es@.subrange(0, es.len() as int) =~= es@);
    None
}

/// The topics of the named events, in the order of the names; a name the
/// interface lacks is skipped.
pub open spec fn topics_for(es: Seq<AbiEvent>, names: Seq<String>) -> Seq<Seq<u8>>
    decreases names.len(),
{
    if names.len() == 0 {
        seq![]
    } else {
        let rest = topics_for(es, names.drop_last());
        match event_named(es, names.last()@) {
            Some(j) => rest.push(event_topic(es[j])),
            None => rest,
        }
    }
}

/// The topics a poller filters logs by: one per subscribed event name the
/// interface knows, the first event of that name.
pub fn event_topics(abi: &ContractAbi, event_names: &Vec<String>) -> (r: Vec<[u8; 32]>)
    ensures
        word_views(r@) == topics_for(abi.events@, event_names@),
{
    let mut r: Vec<[u8; 32]> = Vec::new();
    let mut i: usize = 0;
    while i < event_names.len()
        invariant
            0 <= i <= event_names.len(),
            word_views(r@) == topics_for(abi.events@, event_names@.subrange(0, i as int)),
        decreases event_names.len() - i,
    {
        let ghost before = r@;
        assert(event_names@.subrange(0, i as int + 1).drop_last() =~= event_names@.subrange(0, i as int));
        match find_event_named(&abi.events, &event_names[i]) {
            Some(j) => {
                let t = abi.events[j].topic();
                r.push(t);
                assert(word_views(r@) =~= word_views(before).push(t@));
            },
            None => {},
        }
        i = i + 1;
    }
    assert(event_names@.subrange(0, event_names.len() as int) =~= event_names@);
    r
}

/// How many of the first `k` inputs are indexed.
pub open spec fn indexed_before(ps: Seq<AbiParam>, k: int) -> nat
    decreases k,
{
    if k <= 0 {
        0
    } else {
        indexed_before(ps, k - 1) + if ps[k - 1].indexed { 1nat } else { 0nat }
    }
}

/// `- name: value` and a newline.
pub open spec fn field_line(name: Seq<char>, v: Value) -> Seq<char> {
    seq!['-', ' '] + name + seq![':', ' '] + value_text(v) + seq!['\n']
}

/// The line of input `j`: its value is the next one from the topics if it
/// is indexed and from the data if not; an input whose list ran out has no
/// line.
pub open spec fn input_line(ps: Seq<AbiParam>, indexed: Seq<Value>, body: Seq<Value>, j: int) -> Seq<char> {
    let ni = indexed_before(ps, j) as int;
    let nb = j - ni;
    if ps[j].indexed {
        if ni < indexed.len() { field_line(ps[j].name@, indexed[ni]) } else { seq![] }
    } else {
        if nb < body.len() { field_line(ps[j].name@, body[nb]) } else { seq![] }
    }
}

/// The lines of the first `k` inputs.
pub open spec fn fields_text(ps: Seq<AbiParam>, indexed: Seq<Value>, body: Seq<Value>, k: int) -> Seq<char>
    decreases k,
{
    if k <= 0 {
        seq![]
    } else {
        fields_text(ps, indexed, body, k - 1) + input_line(ps, indexed, body, k - 1)
    }
}

/// The types of the indexed inputs, or of the others, in order.
pub open spec fn types_where(ps: Seq<AbiParam>, indexed: bool) -> Seq<Seq<char>>
    decreases ps.len(),
{
    if ps.len() == 0 {
        seq![]
    } else if ps.last().indexed == indexed {
        types_where(ps.drop_last(), indexed).push(ps.last().ty@)
    } else {
        types_where(ps.drop_last(), indexed)
    }
}

/// The rendering of a log against an interface.
pub open spec fn event_details_text(topics: Seq<Seq<u8>>, data: Seq<u8>, abi: ContractAbi) -> Seq<char> {
    if topics.len() == 0 {
        "Event: Anonymous/Malformed (No topics)"@
    } else {
        match event_with_topic(abi.events@, topics[0]) {
            None => "Unknown Event (Signature: 0x"@ + hex_text(topics[0]) + ")"@,
            Some(j) => {
                let e = abi.events@[j];
                let topic0 = if e.anonymous { None } else { Some(topics[0]) };
                match event_fields_of(topic0, types_where(e.inputs@, true), types_where(e.inputs@, false), topics, data) {
                    Ok(fields) => "Event: "@ + e.name@ + "\n"@ + fields_text(e.inputs@, fields.0, fields.1, e.inputs@.len() as int),
                    Err(msg) => "Event: "@ + e.name@ + " (Decode Error: "@ + msg + ")"@,
                }
            },
        }
    }
}


/// The types of the inputs whose `indexed` flag is `indexed`.
fn input_types_where(ps: &Vec<AbiParam>, indexed: bool) -> (r: Vec<String>)
    ensures
        type_texts(r@) == types_where(ps@, indexed),
{
    let mut r: Vec<String> = Vec::new();
    let mut i: usize = 0;
    while i < ps.len()
        invariant
            0 <= i <= ps.len(),
            type_texts(r@) == types_where(ps@.subrange(0, i as int), indexed),
        decreases ps.len() - i,
    {
        let ghost before = r@;
        assert(ps@.subrange(0, i as int + 1).drop_last() =~= ps@.subrange(0, i as int));
        assert(ps@.subrange(0, i as int + 1).last() == ps@[i as int]);
        if ps[i].indexed == indexed {
            r.push(ps[i].ty.clone());
            assert(type_texts(r@) =~= type_texts(before).push(ps@[i as int].ty@));
        }
        i = i + 1;
    }
    assert(ps@.subrange(0, ps.len() as int) =~= ps@);
    r
}

/// Appends the line of one field.
pub(crate) fn push_field_line(out: &mut String, name: &String, v: &Value)
    ensures
        final(out)@ == old(out)@ + field_line(name@, *v),
{
    let t = format_value(v);
    out.append("- ");
    out.append(name.as_str());
    out.append(": ");
    out.append(t.as_str());
    out.append("\n");
    proof {
        reveal_strlit("- ");
        reveal_strlit(": ");
        reveal_strlit("\n");
    }
    assert(final(out)@ =~= old(out)@ + field_line(name@, *v));
}

/// Appends the lines of all inputs, each value taken in declaration order
/// from the indexed values or the body values.
fn push_fields(out: &mut String, ps: &Vec<AbiParam>, indexed: &Vec<Value>, body: &Vec<Value>)
    ensures
        final(out)@ == old(out)@ + fields_text(ps@, indexed@, body@, ps@.len() as int),
{
    let mut i: usize = 0;
    let mut ni: usize = 0;
    let mut nb: usize = 0;
    while i < ps.len()
        invariant
            0 <= i <= ps.len(),
            ni == indexed_before(ps@, i as int),
            nb + ni == i,
            out@ == old(out)@ + fields_text(ps@, indexed@, body@, i as int),
        decreases ps.len() - i,
    {
        let ghost before = out@;
        if ps[i].indexed {
            if ni < indexed.len() {
                push_field_line(out, &ps[i].name, &indexed[ni]);
            }
            ni = ni + 1;
        } else {
            if nb < body.len() {
                push_field_line(out, &ps[i].name, &body[nb]);
            }
            nb = nb + 1;
        }
        assert(out@ =~= before + input_line(ps@, indexed@, body@, i as int));
        i = i + 1;
    }
}

/// Renders a log through the interface event whose topic is its first
/// topic: the event's name and one line per decoded input; a log without
/// topics, with an unknown first topic, or that does not decode gets a line
/// saying so.
pub fn get_event_details(log: &Log, abi: &ContractAbi) -> (r: String)
    ensures
        r@ == event_details_text(word_views(log.topics@), log.data@, *abi),
{
    let mut out = String::new();
    if log.topics.len() == 0 {
        out.append("Event: Anonymous/Malformed (No topics)");
        return out;
    }
    let selector = log.topics[0];
    assert(word_views(log.topics@)[0] == selector@);
    match find_event_with_topic(&abi.events, &selector) {
        None => {
            let h = hex_string(selector.as_slice());
            out.append("Unknown Event (Signature: 0x");
            out.append(h.as_str());
            out.append(")");
            out
        },
        Some(j) => {
            let e = &abi.events[j];
            let itypes = input_types_where(&e.inputs, true);
            let btypes = input_types_where(&e.inputs, false);
            let topic0 = if e.anonymous { None } else { Some(selector) };
            match decode_event_fields(topic0, &itypes, &btypes, &log.topics, log.data.as_slice()) {
                Ok(fields) => {
                    out.append("Event: ");
                    out.append(e.name.as_str());
                    out.append("\n");
                    push_fields(&mut out, &e.inputs, &fields.indexed, &fields.body);
                    out
                },
                Err(msg) => {
                    out.append("Event: ");
                    out.append(e.name.as_str());
                    out.append(" (Decode Error: ");
                    out.append(msg.as_str());
                    out.append(")");
                    out
                },
            }
        },
    }
}

} // verus!
