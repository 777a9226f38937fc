//! The persisted cursor: `{"last_processed_block": N}` as pretty-printed
//! JSON. Reading is forgiving of whitespace and nothing else: any other
//! content reads as no cursor, which starts the monitor fresh.

use vstd::prelude::*;
use crate::abi::utf8;
use crate::primitives::{U256, decimal_string, decimal_text, digit_char, hex_string, hex_text};
use vstd::utf8::{encode_utf8, is_ascii_chars, is_ascii_chars_encode_utf8};

verus! {

/// The durable progress of one monitor.
#[derive(Clone, Copy, PartialEq, Eq, Structural, Debug)]
pub struct MonitorState {
    pub last_processed_block: u64,
}

pub open spec fn is_json_ws(b: u8) -> bool {
    b == 0x20 || b == 0x0a || b == 0x0d || b == 0x09
}

pub open spec fn is_ascii_digit(b: u8) -> bool {
    0x30 <= b && b <= 0x39
}

/// The first position at or after `i` that is not whitespace.
pub open spec fn skip_ws(s: Seq<u8>, i: int) -> int
    decreases s.len() - i,
{
    if 0 <= i < s.len() && is_json_ws(s[i]) {
        skip_ws(s, i + 1)
    } else {
        i
    }
}

/// The first position at or after `i` that is not a digit.
pub open spec fn skip_digits(s: Seq<u8>, i: int) -> int
    decreases s.len() - i,
{
    if 0 <= i < s.len() && is_ascii_digit(s[i]) {
        skip_digits(s, i + 1)
    } else {
        i
    }
}

/// `"last_processed_block"`, quotes included.
pub open spec fn key_bytes() -> Seq<u8> {
    seq![0x22u8, 0x6c, 0x61, 0x73, 0x74, 0x5f, 0x70, 0x72, 0x6f, 0x63, 0x65, 0x73, 0x73, 0x65,
        0x64, 0x5f, 0x62, 0x6c, 0x6f, 0x63, 0x6b, 0x22]
}

/// The number that ASCII decimal digits denote.
pub open spec fn digit_bytes_value(s: Seq<u8>) -> nat
    decreases s.len(),
{
    if s.len() == 0 {
        0
    } else {
        digit_bytes_value(s.drop_last()) * 10 + (s.last() - 0x30) as nat
    }
}

/// The block number a cursor file holds: whitespace, `{`, the key, `:`, a
/// decimal number without leading zeros that fits in 64 bits, `}`, with
/// whitespace between the parts. Anything else holds none.
pub open spec fn cursor_from_bytes(s: Seq<u8>) -> Option<u64> {
    let i0 = skip_ws(s, 0);
    let i1 = skip_ws(s, i0 + 1);
    let i2 = skip_ws(s, i1 + 22);
    let i3 = skip_ws(s, i2 + 1);
    let i4 = skip_digits(s, i3);
    let i5 = skip_ws(s, i4);
    if i0 < s.len() && s[i0] == 0x7b
        && i1 + 22 <= s.len() && s.subrange(i1, i1 + 22) == key_bytes()
        && i2 < s.len() && s[i2] == 0x3a
        && i4 > i3 && (s[i3] == 0x30 ==> i4 == i3 + 1)
        && digit_bytes_value(s.subrange(i3, i4)) <= u64::MAX
        && i5 < s.len() && s[i5] == 0x7d
        && skip_ws(s, i5 + 1) == s.len() {
        Some(digit_bytes_value(s.subrange(i3, i4)) as u64)
    } else {
        None
    }
}

/// The store key of a monitor's cursor: the hex of its name's UTF-8 bytes,
/// so any name gives a plain file name, and a monitor created again under
/// the same name finds its cursor.
pub fn cursor_key(monitor: &str) -> (r: String)
    ensures
        r@ == hex_text(utf8(monitor@)),
{
    hex_string(monitor.as_bytes())
}

/// The text a cursor is stored as.
pub open spec fn cursor_text(n: u64) -> Seq<char> {
    "{\n  \"last_processed_block\": "@ + decimal_text(n as nat) + "\n}"@
}

proof fn lemma_skip_ws_bounds(s: Seq<u8>, i: int)
    requires
        0 <= i,
    ensures
        i <= skip_ws(s, i),
        i <= s.len() ==> skip_ws(s, i) <= s.len(),
    decreases s.len() - i,
{
    if 0 <= i < s.len() && is_json_ws(s[i]) {
        lemma_skip_ws_bounds(s, i + 1);
    }
}

proof fn lemma_skip_digits_bounds(s: Seq<u8>, i: int)
    requires
        0 <= i,
    ensures
        i <= skip_digits(s, i),
        i <= s.len() ==> skip_digits(s, i) <= s.len(),
        forall|j: int| i <= j < skip_digits(s, i) ==> is_ascii_digit(#[trigger] s[j]),
    decreases s.len() - i,
{
    if 0 <= i < s.len() && is_ascii_digit(s[i]) {
        lemma_skip_digits_bounds(s, i + 1);
    }
}

/// Skips whitespace from `i`.
fn skip_ws_at(s: &[u8], i: usize) -> (r: usize)
    requires
        i <= s@.len(),
    ensures
        r as int == skip_ws(s@, i as int),
        i <= r <= s@.len(),
{
    let mut j = i;
    proof { lemma_skip_ws_bounds(s@, i as int); }
    while j < s.len() && (s[j] == 0x20 || s[j] == 0x0a || s[j] == 0x0d || s[j] == 0x09)
        invariant
            i <= j <= s@.len(),
            skip_ws(s@, j as int) == skip_ws(s@, i as int),
        decreases s@.len() - j,
    {
        j = j + 1;
    }
    j
}

/// Reads the digits from `i` as a number, or `None` past 64 bits.
fn read_digits(s: &[u8], i: usize) -> (r: (usize, Option<u64>))
    requires
        i <= s@.len(),
    ensures
        r.0 as int == skip_digits(s@, i as int),
        i <= r.0 <= s@.len(),
        r.1 is Some <==> digit_bytes_value(s@.subrange(i as int, r.0 as int)) <= u64::MAX,
        r.1 is Some ==> r.1->0 == digit_bytes_value(s@.subrange(i as int, r.0 as int)),
{
    let mut j = i;
    let mut v: Option<u64> = Some(0);
    proof { lemma_skip_digits_bounds(s@, i as int); }
    assert(s@.subrange(i as int, i as int).len() == 0);
    while j < s.len() && 0x30 <= s[j] && s[j] <= 0x39
        invariant
            i <= j <= s@.len(),
            skip_digits(s@, j as int) == skip_digits(s@, i as int),
            v is Some <==> digit_bytes_value(s@.subrange(i as int, j as int)) <= u64::MAX,
            v is Some ==> v->0 == digit_bytes_value(s@.subrange(i as int, j as int)),
            forall|k: int| i <= k < j ==> is_ascii_digit(#[trigger] s@[k]),
        decreases s@.len() - j,
    {
        let ghost prev = s@.subrange(i as int, j as int);
        let ghost next = s@.subrange(i as int, j as int + 1);
        assert(next.drop_last() =~= prev);
        assert(digit_bytes_value(next) == digit_bytes_value(prev) * 10 + (s@[j as int] - 0x30) as nat);
        let d = (s[j] - 0x30) as u64;
        v = match v {
            Some(x) => if x <= (u64::MAX - d) / 10 {
                proof {
                    assert(x * 10 + d <= u64::MAX) by (nonlinear_arith)
                        requires x <= (u64::MAX - d) / 10, d <= 9;
                }
                Some(x * 10 + d)
            } else {
                proof {
                    assert(x * 10 + d > u64::MAX) by (nonlinear_arith)
                        requires x > (u64::MAX - d) / 10, d <= 9;
                }
                None
            },
            None => {
                proof {
                    assert(digit_bytes_value(next) >= digit_bytes_value(prev));
                }
                None
            },
        };
        j = j + 1;
    }
    (j, v)
}

impl MonitorState {
    /// The stored form: `{`, the key and the number on an indented line, `}`.
    pub fn to_json(&self) -> (r: String)
        ensures
            r@ == cursor_text(self.last_processed_block),
    {
        let digits = decimal_string(&U256::from_u64(self.last_processed_block));
        let mut out = String::new();
        out.append("{\n  \"last_processed_block\": ");
        out.append(digits.as_str());
        out.append("\n}");
        out
    }

    /// Reads a stored cursor; content of any other shape reads as none.
    pub fn from_json(bytes: &[u8]) -> (r: Option<MonitorState>)
        ensures
            match cursor_from_bytes(bytes@) {
                Some(n) => r == Some(MonitorState { last_processed_block: n }),
                None => r is None,
            },
    {
        let s = bytes;
        let n = s.len();
        let i0 = skip_ws_at(s, 0);
        if i0 >= n || s[i0] != 0x7b {
            return None;
        }
        let i1 = skip_ws_at(s, i0 + 1);
        if n - i1 < 22 {
            return None;
        }
        let key: [u8; 22] = [0x22, 0x6c, 0x61, 0x73, 0x74, 0x5f, 0x70, 0x72, 0x6f, 0x63, 0x65, 0x73,
            0x73, 0x65, 0x64, 0x5f, 0x62, 0x6c, 0x6f, 0x63, 0x6b, 0x22];
        assert(key@ =~= key_bytes());
        let mut k: usize = 0;
        while k < 22
            invariant
                0 <= k <= 22,
                s@ == bytes@,
                n == s@.len(),
                i0 as int == skip_ws(s@, 0),
                i0 < n,
                s@[i0 as int] == 0x7b,
                i1 as int == skip_ws(s@, i0 + 1),
                i1 + 22 <= s@.len(),
                key@ == key_bytes(),
                forall|m: int| 0 <= m < k ==> s@[i1 + m] == key@[m],
            decreases 22 - k,
        {
            if s[i1 + k] != key[k] {
                assert(s@.subrange(i1 as int, i1 + 22)[k as int] != key_bytes()[k as int]);
                return None;
            }
            k = k + 1;
        }
        assert(s@.subrange(i1 as int, i1 + 22) =~= key_bytes());
        let i2 = skip_ws_at(s, i1 + 22);
        if i2 >= n || s[i2] != 0x3a {
            return None;
        }
        let i3 = skip_ws_at(s, i2 + 1);
        let (i4, value) = read_digits(s, i3);
        if i4 <= i3 {
            return None;
        }
        if s[i3] == 0x30 && i4 != i3 + 1 {
            return None;
        }
        let v = match value {
            Some(v) => v,
            None => return None,
        };
        let i5 = skip_ws_at(s, i4);
        if i5 >= n || s[i5] != 0x7d {
            return None;
        }
        let end = skip_ws_at(s, i5 + 1);
        if end != n {
            return None;
        }
        Some(MonitorState { last_processed_block: v })
    }
}


proof fn lemma_digit_char_byte(d: nat)
    requires
        d < 10,
    ensures
        digit_char(d) as u8 == 0x30 + d,
        '\0' <= digit_char(d) <= '\u{7f}',
{
}

/// The bytes of a decimal rendering are ASCII digits, the first one a zero
/// only for zero itself, and they read back as the number.
proof fn lemma_decimal_bytes(n: nat, bs: Seq<u8>)
    requires
        bs.len() == decimal_text(n).len(),
        forall|i: int| 0 <= i < bs.len() ==> bs[i] == #[trigger] decimal_text(n)[i] as u8,
    ensures
        bs.len() >= 1,
        forall|i: int| 0 <= i < bs.len() ==> is_ascii_digit(#[trigger] bs[i]),
        forall|i: int| 0 <= i < bs.len() ==> '\0' <= #[trigger] decimal_text(n)[i] <= '\u{7f}',
        bs[0] == 0x30 ==> n == 0 && bs.len() == 1,
        digit_bytes_value(bs) == n,
    decreases n,
{
    if n < 10 {
        lemma_digit_char_byte(n);
        assert(decimal_text(n) == seq![digit_char(n)]);
        assert(bs[0] == decimal_text(n)[0] as u8);
        assert(bs.drop_last().len() == 0);
        assert(digit_bytes_value(bs) == digit_bytes_value(bs.drop_last()) * 10 + (bs.last() - 0x30) as nat);
    } else {
        let t = decimal_text(n / 10);
        lemma_digit_char_byte(n % 10);
        assert(decimal_text(n) == t.push(digit_char(n % 10)));
        let init = bs.drop_last();
        assert forall|i: int| 0 <= i < init.len() implies init[i] == #[trigger] t[i] as u8 by {
            assert(decimal_text(n)[i] == t[i]);
        }
        lemma_decimal_bytes(n / 10, init);
        let last = bs.len() - 1;
        assert(bs[last] == decimal_text(n)[last] as u8);
        assert(decimal_text(n)[last] == digit_char(n % 10));
        assert forall|i: int| 0 <= i < bs.len() implies is_ascii_digit(#[trigger] bs[i]) by {
            if i < init.len() {
                assert(bs[i] == init[i]);
            }
        }
        assert forall|i: int| 0 <= i < bs.len() implies '\0' <= #[trigger] decimal_text(n)[i] <= '\u{7f}' by {
            if i < init.len() {
                assert(decimal_text(n)[i] == t[i]);
            }
        }
        assert(bs[0] == init[0]);
        assert(digit_bytes_value(bs) == digit_bytes_value(init) * 10 + (bs.last() - 0x30) as nat);
    }
}

proof fn lemma_skip_digits_run(s: Seq<u8>, i: int, k: int)
    requires
        0 <= i <= k <= s.len(),
        forall|j: int| i <= j < k ==> is_ascii_digit(#[trigger] s[j]),
        k < s.len() ==> !is_ascii_digit(s[k]),
    ensures
        skip_digits(s, i) == k,
    decreases k - i,
{
    if i < k {
        lemma_skip_digits_run(s, i + 1, k);
    }
}

/// A stored cursor reads back as the same block number.
pub proof fn cursor_round_trip(n: u64)
    ensures
        cursor_from_bytes(utf8(cursor_text(n))) == Some(n),
{
    let d = decimal_text(n as nat);
    reveal_strlit("{\n  \"last_processed_block\": ");
    reveal_strlit("\n}");
    let p = "{\n  \"last_processed_block\": "@;
    let q = "\n}"@;
    let t = p + d + q;
    let dl = d.len() as int;
    let ghost db = Seq::new(d.len(), |i: int| d[i] as u8);
    lemma_decimal_bytes(n as nat, db);
    assert(p.len() == 28);
    assert(q.len() == 2);
    assert forall|i: int| 0 <= i < t.len() implies '\0' <= #[trigger] t[i] <= '\u{7f}' by {
        if i < 28 {
            assert(t[i] == p[i]);
        } else if i < 28 + dl {
            assert(t[i] == d[i - 28]);
        } else {
            assert(t[i] == q[i - 28 - dl]);
        }
    }
    assert(is_ascii_chars(t));
    is_ascii_chars_encode_utf8(t);
    let b = encode_utf8(t);
    assert(b.len() == 30 + dl);
    assert forall|i: int| 0 <= i < dl implies #[trigger] b[28 + i] == db[i] by {
        assert(t[28 + i] == d[i]);
        assert(b[28 + i] == t[28 + i] as u8);
    }
    assert(b[0] == 0x7b) by { assert(t[0] == '{'); assert(b[0] == t[0] as u8); }
    assert(b[1] == 0x0a) by { assert(t[1] == '\n'); assert(b[1] == t[1] as u8); }
    assert(b[2] == 0x20) by { assert(t[2] == ' '); assert(b[2] == t[2] as u8); }
    assert(b[3] == 0x20) by { assert(t[3] == ' '); assert(b[3] == t[3] as u8); }
    assert(b[26] == 0x3a) by { assert(t[26] == ':'); assert(b[26] == t[26] as u8); }
    assert(b[27] == 0x20) by { assert(t[27] == ' '); assert(b[27] == t[27] as u8); }
    assert(b[28 + dl] == 0x0a) by { assert(t[28 + dl] == '\n'); assert(b[28 + dl] == t[28 + dl] as u8); }
    assert(b[29 + dl] == 0x7d) by { assert(t[29 + dl] == '}'); assert(b[29 + dl] == t[29 + dl] as u8); }
    assert(b.subrange(4, 26) =~= key_bytes()) by {
        assert forall|m: int| 0 <= m < 22 implies #[trigger] b.subrange(4, 26)[m] == key_bytes()[m] by {
            assert(t[4 + m] == p[4 + m]);
            assert(b[4 + m] == t[4 + m] as u8);
        }
    }
    assert(skip_ws(b, 0) == 0);
    assert(skip_ws(b, 4) == 4) by { assert(b[4] == 0x22) by { assert(b.subrange(4, 26)[0] == key_bytes()[0]); } }
    assert(skip_ws(b, 3) == 4);
    assert(skip_ws(b, 2) == 4);
    assert(skip_ws(b, 1) == 4);
    assert(skip_ws(b, 26) == 26);
    assert(is_ascii_digit(b[28])) by { assert(b[28] == db[0]); }
    assert(skip_ws(b, 28) == 28);
    assert(skip_ws(b, 27) == 28);
    assert forall|j: int| 28 <= j < 28 + dl implies is_ascii_digit(#[trigger] b[j]) by {
        assert(b[28 + (j - 28)] == db[j - 28]);
    }
    lemma_skip_digits_run(b, 28, 28 + dl);
    assert(b.subrange(28, 28 + dl) =~= db);
    assert(skip_ws(b, 29 + dl) == 29 + dl);
    assert(skip_ws(b, 28 + dl) == 29 + dl);
    assert(skip_ws(b, 30 + dl) == 30 + dl);
    assert(b[28] == 0x30 ==> 28 + dl == 29) by { assert(b[28] == db[0]); }
}

} // verus!
