//! Plain models of the chain values the engine reads: addresses, 256-bit
//! words, and their textual forms.

use vstd::prelude::*;
use std::str::FromStr;

verus! {

/// Two to the power 64, 128 and 256.
pub open spec fn pow64() -> nat {
    0x1_0000_0000_0000_0000nat
}

pub open spec fn pow128() -> nat {
    pow64() * pow64()
}

pub open spec fn pow256() -> nat {
    pow128() * pow128()
}

/// Value of a hex digit of either case, or `None`.
pub open spec fn hex_digit(c: char) -> Option<nat> {
    if '0' <= c && c <= '9' {
        Some((c as nat - '0' as nat) as nat)
    } else if 'a' <= c && c <= 'f' {
        Some((c as nat - 'a' as nat + 10) as nat)
    } else if 'A' <= c && c <= 'F' {
        Some((c as nat - 'A' as nat + 10) as nat)
    } else {
        None
    }
}

/// The text without a leading `0x` or `0X`.
pub open spec fn strip_hex_prefix(s: Seq<char>) -> Seq<char> {
    if s.len() >= 2 && s[0] == '0' && (s[1] == 'x' || s[1] == 'X') {
        s.subrange(2, s.len() as int)
    } else {
        s
    }
}

/// The bytes that pairs of hex digits stand for.
pub open spec fn hex_pairs(h: Seq<char>) -> Seq<u8> {
    Seq::new(
        h.len() / 2,
        |i: int| (hex_digit(h[2 * i])->0 * 16 + hex_digit(h[2 * i + 1])->0) as u8,
    )
}

/// The twenty address bytes a text denotes: an optional `0x` prefix and
/// exactly forty hex digits.
pub open spec fn address_from_text(s: Seq<char>) -> Option<Seq<u8>> {
    let h = strip_hex_prefix(s);
    if h.len() == 40 && forall|i: int| 0 <= i < h.len() ==> (#[trigger] hex_digit(h[i])) is Some {
        Some(hex_pairs(h))
    } else {
        None
    }
}

/// A 20-byte account or contract address.
pub struct Address {
    pub bytes: [u8; 20],
}

impl View for Address {
    type V = Seq<u8>;

    open spec fn view(&self) -> Seq<u8> {
        self.bytes@
    }
}

impl Clone for Address {
    fn clone(&self) -> (r: Self)
        ensures
            r@ == self@,
    {
        Address { bytes: self.bytes }
    }
}

impl Address {
    /// Byte-wise equality.
    pub fn same(&self, other: &Address) -> (r: bool)
        ensures
            r == (self@ == other@),
    {
        let mut i: usize = 0;
        while i < 20
            invariant
                0 <= i <= 20,
                self@.len() == 20,
                other@.len() == 20,
                forall|j: int| 0 <= j < i ==> self@[j] == other@[j],
            decreases 20 - i,
        {
            if self.bytes[i] != other.bytes[i] {
                return false;
            }
            i = i + 1;
        }
        assert(self@ =~= other@);
        true
    }

    /// Parses an address written as forty hex digits, with or without `0x`.
    pub fn parse(s: &str) -> (r: Option<Address>)
        ensures
            r is Some <==> address_from_text(s@) is Some,
            r is Some ==> r->0@ == address_from_text(s@)->0,
    {
        parse_address_text(s)
    }
}

impl PartialEq for Address {
    fn eq(&self, other: &Address) -> (r: bool) {
        self.same(other)
    }
}

impl vstd::std_specs::cmp::PartialEqSpecImpl for Address {
    open spec fn obeys_eq_spec() -> bool {
        true
    }

    open spec fn eq_spec(&self, other: &Address) -> bool {
        self@ == other@
    }
}

/// Relies on alloy's `Address::from_str` (hex decoding into twenty bytes):
/// an optional `0x`/`0X` prefix, then exactly forty hex digits of either case.
#[verifier::external_body]
fn parse_address_text(s: &str) -> (r: Option<Address>)
    ensures
        r is Some <==> address_from_text(s@) is Some,
        r is Some ==> r->0@ == address_from_text(s@)->0,
{
    alloy::primitives::Address::from_str(s).ok().map(|a| Address { bytes: a.into_array() })
}


/// Value of a digit in bases up to 36 (letters of either case), or `None`.
pub open spec fn radix_digit(c: char) -> Option<nat> {
    if '0' <= c && c <= '9' {
        Some((c as nat - '0' as nat) as nat)
    } else if 'a' <= c && c <= 'z' {
        Some((c as nat - 'a' as nat + 10) as nat)
    } else if 'A' <= c && c <= 'Z' {
        Some((c as nat - 'A' as nat + 10) as nat)
    } else {
        None
    }
}

/// The number that digits in `radix` denote, underscores ignored; `None` on
/// any other character.
pub open spec fn digits_value(s: Seq<char>, radix: nat) -> Option<nat>
    decreases s.len(),
{
    if s.len() == 0 {
        Some(0)
    } else {
        let c = s.last();
        match digits_value(s.drop_last(), radix) {
            None => None,
            Some(v) => if c == '_' {
                Some(v)
            } else {
                match radix_digit(c) {
                    Some(d) => if d < radix {
                        Some(v * radix + d)
                    } else {
                        None
                    },
                    None => None,
                }
            },
        }
    }
}

/// The radix a number text selects by its prefix, and the digits after it.
pub open spec fn radix_split(s: Seq<char>) -> (Seq<char>, nat) {
    if s.len() >= 2 && s[0] == '0' && (s[1] == 'x' || s[1] == 'X') {
        (s.subrange(2, s.len() as int), 16)
    } else if s.len() >= 2 && s[0] == '0' && (s[1] == 'o' || s[1] == 'O') {
        (s.subrange(2, s.len() as int), 8)
    } else if s.len() >= 2 && s[0] == '0' && (s[1] == 'b' || s[1] == 'B') {
        (s.subrange(2, s.len() as int), 2)
    } else {
        (s, 10)
    }
}

/// The unsigned 256-bit number a text denotes: decimal, or hex, octal or
/// binary after `0x`, `0o`, `0b`; underscores ignored.
pub open spec fn uint_from_text(s: Seq<char>) -> Option<nat> {
    let (digits, radix) = radix_split(s);
    match digits_value(digits, radix) {
        Some(v) => if v < pow256() {
            Some(v)
        } else {
            None
        },
        None => None,
    }
}

/// A 256-bit unsigned word, as four 64-bit limbs, least significant first.
pub struct U256 {
    pub limbs: [u64; 4],
}

pub open spec fn limbs_value(l: Seq<u64>) -> nat {
    ((l[3] as nat * pow64() + l[2] as nat) * pow128() + (l[1] as nat * pow64() + l[0] as nat)) as nat
}

impl U256 {
    pub open spec fn value(&self) -> nat {
        limbs_value(self.limbs@)
    }

    /// The upper and lower 128 bits.
    fn halves(&self) -> (r: (u128, u128))
        ensures
            r.0 as nat == self.limbs@[3] as nat * pow64() + self.limbs@[2] as nat,
            r.1 as nat == self.limbs@[1] as nat * pow64() + self.limbs@[0] as nat,
    {
        let a = self.limbs[3] as u128;
        let b = self.limbs[2] as u128;
        let c = self.limbs[1] as u128;
        let d = self.limbs[0] as u128;
        proof {
            assert(a * 0x1_0000_0000_0000_0000u128 + b <= 0xffff_ffff_ffff_ffff_ffff_ffff_ffff_ffffu128)
                by (nonlinear_arith)
                requires a <= 0xffff_ffff_ffff_ffffu128, b <= 0xffff_ffff_ffff_ffffu128;
            assert(c * 0x1_0000_0000_0000_0000u128 + d <= 0xffff_ffff_ffff_ffff_ffff_ffff_ffff_ffffu128)
                by (nonlinear_arith)
                requires c <= 0xffff_ffff_ffff_ffffu128, d <= 0xffff_ffff_ffff_ffffu128;
        }
        (a * 0x1_0000_0000_0000_0000u128 + b, c * 0x1_0000_0000_0000_0000u128 + d)
    }

    /// The word holding a 64-bit number.
    pub fn from_u64(n: u64) -> (r: U256)
        ensures
            r.value() == n as nat,
    {
        let r = U256 { limbs: [n, 0, 0, 0] };
        assert(r.limbs@[0] == n && r.limbs@[1] == 0 && r.limbs@[2] == 0 && r.limbs@[3] == 0);
        assert(limbs_value(r.limbs@) == n as nat) by (nonlinear_arith)
            requires
                r.limbs@[0] == n,
                r.limbs@[1] == 0,
                r.limbs@[2] == 0,
                r.limbs@[3] == 0,
        {
            assert(pow128() == pow64() * pow64());
        }
        r
    }

    /// Numeric order: -1, 0 or 1 as `self` is below, equal to or above `other`.
    pub fn compare(&self, other: &U256) -> (r: i8)
        ensures
            r == -1 <==> self.value() < other.value(),
            r == 0 <==> self.value() == other.value(),
            r == 1 <==> self.value() > other.value(),
    {
        let (ah, al) = self.halves();
        let (bh, bl) = other.halves();
        proof {
            lemma_halves_order(ah as nat, al as nat, bh as nat, bl as nat);
        }
        if ah < bh {
            -1
        } else if ah > bh {
            1
        } else if al < bl {
            -1
        } else if al > bl {
            1
        } else {
            0
        }
    }

    /// Parses an unsigned 256-bit number as `U256::from_str` reads it.
    pub fn parse(s: &str) -> (r: Option<U256>)
        ensures
            r is Some <==> uint_from_text(s@) is Some,
            r is Some ==> r->0.value() == uint_from_text(s@)->0,
    {
        parse_uint_text(s)
    }
}

proof fn lemma_halves_order(ah: nat, al: nat, bh: nat, bl: nat)
    requires
        al < pow128(),
        bl < pow128(),
    ensures
        ah < bh ==> ah * pow128() + al < bh * pow128() + bl,
        ah > bh ==> ah * pow128() + al > bh * pow128() + bl,
        ah == bh ==> (ah * pow128() + al < bh * pow128() + bl <==> al < bl),
        ah == bh ==> (ah * pow128() + al == bh * pow128() + bl <==> al == bl),
{
    let p = pow128();
    assert(ah < bh ==> ah * p + al < bh * p + bl) by (nonlinear_arith)
        requires al < p, bl < p;
    assert(ah > bh ==> ah * p + al > bh * p + bl) by (nonlinear_arith)
        requires al < p, bl < p;
}

/// Relies on ruint's `Uint::from_str` for `U256`: a `0x`, `0o` or `0b` prefix
/// selects the radix (else decimal), digits of either case, underscores
/// skipped, and an error when a character is no digit of the radix or the
/// value does not fit in 256 bits.
#[verifier::external_body]
fn parse_uint_text(s: &str) -> (r: Option<U256>)
    ensures
        r is Some <==> uint_from_text(s@) is Some,
        r is Some ==> r->0.value() == uint_from_text(s@)->0,
{
    alloy::primitives::U256::from_str(s).ok().map(|n| U256 { limbs: n.into_limbs() })
}


/// The decimal digit or lowercase hex digit for a value below 16.
pub open spec fn digit_char(d: nat) -> char {
    if d == 0 { '0' } else if d == 1 { '1' } else if d == 2 { '2' } else if d == 3 { '3' }
    else if d == 4 { '4' } else if d == 5 { '5' } else if d == 6 { '6' } else if d == 7 { '7' }
    else if d == 8 { '8' } else if d == 9 { '9' } else if d == 10 { 'a' } else if d == 11 { 'b' }
    else if d == 12 { 'c' } else if d == 13 { 'd' } else if d == 14 { 'e' } else { 'f' }
}

/// Decimal digits of `n`, without leading zeros.
pub open spec fn decimal_text(n: nat) -> Seq<char>
    decreases n,
{
    if n < 10 {
        seq![digit_char(n)]
    } else {
        decimal_text(n / 10).push(digit_char(n % 10))
    }
}

/// A two's-complement 256-bit word in signed decimal.
pub open spec fn signed_decimal_text(raw: nat) -> Seq<char> {
    if raw >= pow256() / 2 {
        seq!['-'] + decimal_text((pow256() - raw) as nat)
    } else {
        decimal_text(raw)
    }
}

/// Two lowercase hex digits per byte, no prefix.
pub open spec fn hex_text(b: Seq<u8>) -> Seq<char>
    decreases b.len(),
{
    if b.len() == 0 {
        seq![]
    } else {
        hex_text(b.drop_last()) + seq![digit_char(b.last() as nat / 16), digit_char(b.last() as nat % 16)]
    }
}

/// The uppercase form of a lowercase hex letter; digits stay as they are.
pub open spec fn upper_hex(c: char) -> char {
    if c == 'a' { 'A' } else if c == 'b' { 'B' } else if c == 'c' { 'C' }
    else if c == 'd' { 'D' } else if c == 'e' { 'E' } else if c == 'f' { 'F' } else { c }
}

/// Nibble `i` of a digest, high nibble of each byte first.
pub open spec fn digest_nibble(k: Seq<u8>, i: int) -> nat {
    if i % 2 == 0 {
        k[i / 2] as nat / 16
    } else {
        k[i / 2] as nat % 16
    }
}

/// The mixed-case checksummed form of an address (EIP-55): `0x`, then the
/// lowercase hex digits, each letter uppercased where the matching nibble of
/// the digest of the lowercase hex text is 8 or more.
pub open spec fn checksum_text(bytes: Seq<u8>) -> Seq<char> {
    let h = hex_text(bytes);
    let k = keccak_of(vstd::utf8::encode_utf8(h));
    seq!['0', 'x'] + Seq::new(h.len(), |i: int| if digest_nibble(k, i) >= 8 { upper_hex(h[i]) } else { h[i] })
}

/// The Keccak-256 digest of some bytes.
pub uninterp spec fn keccak_of(data: Seq<u8>) -> Seq<u8>;

/// Relies on ruint's `Display` for `U256`: plain decimal digits.
#[verifier::external_body]
pub(crate) fn decimal_string(n: &U256) -> (r: String)
    ensures
        r@ == decimal_text(n.value()),
{
    alloy::primitives::U256::from_limbs(n.limbs).to_string()
}

/// Relies on alloy's `Display` for `I256`: a `-` for negative values, then
/// the decimal digits of the magnitude.
#[verifier::external_body]
pub(crate) fn signed_decimal_string(raw: &U256) -> (r: String)
    ensures
        r@ == signed_decimal_text(raw.value()),
{
    alloy::primitives::I256::from_raw(alloy::primitives::U256::from_limbs(raw.limbs)).to_string()
}

/// Relies on `alloy::hex::encode`: two lowercase hex digits per byte.
#[verifier::external_body]
pub(crate) fn hex_string(b: &[u8]) -> (r: String)
    ensures
        r@ == hex_text(b@),
{
    alloy::primitives::hex::encode(b)
}

/// Relies on alloy's `Display` for `Address` (`to_checksum_inner` without a
/// chain id): `0x` and forty hex digits, cased by the EIP-55 checksum.
#[verifier::external_body]
pub(crate) fn checksum_string(a: &Address) -> (r: String)
    ensures
        r@ == checksum_text(a@),
        r@.len() == 42,
        r@[0] == '0',
        r@[1] == 'x',
{
    alloy::primitives::Address::from(a.bytes).to_string()
}

/// Relies on `alloy::primitives::keccak256`.
#[verifier::external_body]
pub(crate) fn keccak256(data: &[u8]) -> (r: [u8; 32])
    ensures
        r@ == keccak_of(data@),
{
    alloy::primitives::keccak256(data).0
}

} // verus!
