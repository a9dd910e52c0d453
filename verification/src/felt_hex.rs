//! Parsing hexadecimal field elements.
//!
//! The gateway receives block hashes as hex strings. Parsing them into the
//! field is delegated to the L2 type library; its acceptance condition and
//! the value it returns are stated here exactly.

use crate::backoff::spec_pow2;
use crate::types::Felt252;
use vstd::prelude::*;

verus! {

/// Whether the char is a hexadecimal digit.
pub open spec fn is_hex_digit(c: char) -> bool {
    ||| ('0' <= c && c <= '9')
    ||| ('a' <= c && c <= 'f')
    ||| ('A' <= c && c <= 'F')
}

/// The value of one hexadecimal digit.
pub open spec fn hex_digit_val(c: char) -> nat {
    if '0' <= c && c <= '9' {
        (c as nat - '0' as nat) as nat
    } else if 'a' <= c && c <= 'f' {
        (c as nat - 'a' as nat + 10) as nat
    } else {
        (c as nat - 'A' as nat + 10) as nat
    }
}

/// Whether every char is a hexadecimal digit.
pub open spec fn all_hex_digits(s: Seq<char>) -> bool {
    forall|i: int| 0 <= i < s.len() ==> is_hex_digit(#[trigger] s[i])
}

/// The big-endian value of a hexadecimal digit string.
pub open spec fn spec_hex_val(s: Seq<char>) -> nat
    decreases s.len(),
{
    if s.len() == 0 {
        0
    } else {
        16 * spec_hex_val(s.drop_last()) + hex_digit_val(s.last())
    }
}

/// The string with one leading `0x` removed; a bare two-char `0x` is kept
/// as it stands (and is then no digit string).
pub open spec fn strip_hex_prefix(s: Seq<char>) -> Seq<char> {
    if s.len() > 2 && s[0] == '0' && s[1] == 'x' {
        s.skip(2)
    } else {
        s
    }
}

/// The prime of the L2 field: 2^251 + 17 * 2^192 + 1.
pub open spec fn stark_prime() -> nat {
    spec_pow2(251) + 17 * spec_pow2(192) + 1
}

/// The strings the field library accepts as a hex-encoded element: nonempty,
/// after an optional `0x` prefix nothing but hex digits, at most 64 of
/// them, and a value not above the field prime (the prime itself is let
/// through and reduces to zero).
pub open spec fn felt_hex_ok(s: Seq<char>) -> bool {
    let t = strip_hex_prefix(s);
    &&& s.len() > 0
    &&& all_hex_digits(t)
    &&& t.len() <= 64
    &&& spec_hex_val(t) <= stark_prime()
}

/// The field element with the given canonical value, as big-endian 64-bit
/// digits.
pub open spec fn spec_felt_of_nat(v: nat) -> Felt252 {
    Felt252 {
        d0: (v / spec_pow2(192)) as u64,
        d1: ((v / spec_pow2(128)) % spec_pow2(64)) as u64,
        d2: ((v / spec_pow2(64)) % spec_pow2(64)) as u64,
        d3: (v % spec_pow2(64)) as u64,
    }
}

/// The element an accepted hex string parses to: its value reduced into the
/// field.
pub open spec fn spec_felt_of_hex(s: Seq<char>) -> Felt252 {
    spec_felt_of_nat(spec_hex_val(strip_hex_prefix(s)) % stark_prime())
}

/// Relies on `starknet_types_core::felt::Felt::from_hex`, which accepts
/// exactly a nonempty string that — after an optional `0x` prefix — holds at
/// most 64 hex digits whose value is at most the field prime, and returns
/// that value reduced into the field; and on `Felt::to_be_digits`, which
/// hands the parsed element back as canonical big-endian 64-bit digits.
#[verifier::external_body]
pub(crate) fn felt_from_hex(s: &str) -> (r: Option<Felt252>)
    ensures
        r is Some <==> felt_hex_ok(s@),
        r matches Some(f) ==> f == spec_felt_of_hex(s@),
{
    match starknet_types_core::felt::Felt::from_hex(s) {
        Ok(f) => {
            let d = f.to_be_digits();
            Some(Felt252 { d0: d[0], d1: d[1], d2: d[2], d3: d[3] })
        },
        Err(_) => None,
    }
}

} // verus!
