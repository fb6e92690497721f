//! The content digest: 64-bit FNV-1a over the UTF-8 bytes of a text, written
//! as sixteen lower-case hexadecimal digits. It depends on the text alone, so
//! it is the same in every run and on every platform.

use vstd::prelude::*;
use vstd::utf8::encode_utf8;

use crate::text::string_of;

verus! {

/// The FNV-1a offset basis for 64 bits.
pub const FNV_OFFSET: u64 = 0xcbf2_9ce4_8422_2325;

/// The FNV prime for 64 bits.
pub const FNV_PRIME: u64 = 0x0000_0100_0000_01b3;

/// The number of hexadecimal digits in a digest.
pub const DIGEST_LEN: usize = 16;

/// FNV-1a: starting from the offset basis, each byte is xor-ed into the state,
/// which is then multiplied by the prime, modulo 2^64.
pub open spec fn fnv1a(bytes: Seq<u8>) -> u64
    decreases bytes.len(),
{
    if bytes.len() == 0 {
        FNV_OFFSET
    } else {
        (fnv1a(bytes.drop_last()) ^ (bytes.last() as u64)).wrapping_mul(FNV_PRIME)
    }
}

/// The lower-case hexadecimal digit for a value below sixteen.
pub open spec fn hex_digit(n: int) -> char {
    if n == 0 {
        '0'
    } else if n == 1 {
        '1'
    } else if n == 2 {
        '2'
    } else if n == 3 {
        '3'
    } else if n == 4 {
        '4'
    } else if n == 5 {
        '5'
    } else if n == 6 {
        '6'
    } else if n == 7 {
        '7'
    } else if n == 8 {
        '8'
    } else if n == 9 {
        '9'
    } else if n == 10 {
        'a'
    } else if n == 11 {
        'b'
    } else if n == 12 {
        'c'
    } else if n == 13 {
        'd'
    } else if n == 14 {
        'e'
    } else {
        'f'
    }
}

/// The last `digits` hexadecimal digits of `value`, most significant first.
pub open spec fn hex_of(value: nat, digits: nat) -> Seq<char>
    decreases digits,
{
    if digits == 0 {
        Seq::<char>::empty()
    } else {
        hex_of(value / 16, (digits - 1) as nat).push(hex_digit((value % 16) as int))
    }
}

/// The digest of a text.
pub open spec fn digest_of(text: Seq<char>) -> Seq<char> {
    hex_of(fnv1a(encode_utf8(text)) as nat, DIGEST_LEN as nat)
}

/// The hexadecimal digit for the lowest four bits of `value`.
pub fn digit_for(value: u64) -> (c: char)
    ensures
        c == hex_digit((value % 16) as int),
{
    let n: u64 = value % 16;
    if n == 0 {
        '0'
    } else if n == 1 {
        '1'
    } else if n == 2 {
        '2'
    } else if n == 3 {
        '3'
    } else if n == 4 {
        '4'
    } else if n == 5 {
        '5'
    } else if n == 6 {
        '6'
    } else if n == 7 {
        '7'
    } else if n == 8 {
        '8'
    } else if n == 9 {
        '9'
    } else if n == 10 {
        'a'
    } else if n == 11 {
        'b'
    } else if n == 12 {
        'c'
    } else if n == 13 {
        'd'
    } else if n == 14 {
        'e'
    } else {
        'f'
    }
}

/// The FNV-1a state after all of `bytes`.
pub fn fnv1a_bytes(bytes: &[u8]) -> (h: u64)
    ensures
        h == fnv1a(bytes@),
{
    let mut h: u64 = FNV_OFFSET;
    let mut i: usize = 0;
    while i < bytes.len()
        invariant
            i <= bytes.len(),
            h == fnv1a(bytes@.take(i as int)),
        decreases bytes.len() - i,
    {
        h = (h ^ (bytes[i] as u64)).wrapping_mul(FNV_PRIME);
        i += 1;
        proof {
            assert(bytes@.take(i as int).drop_last() =~= bytes@.take(i - 1));
        }
    }
    proof {
        assert(bytes@.take(bytes@.len() as int) =~= bytes@);
    }
    h
}

/// Sixteen hexadecimal digits for a 64-bit value.
pub fn hex(value: u64) -> (s: String)
    ensures
        s@ == hex_of(value as nat, DIGEST_LEN as nat),
{
    let mut digits: Vec<char> = Vec::new();
    let mut rest: u64 = value;
    let mut k: usize = 0;
    while k < DIGEST_LEN
        invariant
            k <= DIGEST_LEN,
            digits@.len() == k,
            hex_of(value as nat, DIGEST_LEN as nat) == hex_of(
                rest as nat,
                (DIGEST_LEN - k) as nat,
            ) + digits@,
        decreases DIGEST_LEN - k,
    {
        let c = digit_for(rest);
        proof {
            let head = hex_of((rest / 16) as nat, (DIGEST_LEN - k - 1) as nat);
            assert(head.push(c) + digits@ =~= head + digits@.insert(0, c));
        }
        digits.insert(0, c);
        rest = rest / 16;
        k += 1;
    }
    let s = string_of(&digits, 0, DIGEST_LEN);
    proof {
        assert(digits@.subrange(0, DIGEST_LEN as int) =~= digits@);
        assert(Seq::<char>::empty() + digits@ =~= digits@);
    }
    s
}

/// The digest of a text, as sixteen hexadecimal digits.
pub fn fingerprint(text: &str) -> (digest: String)
    ensures
        digest@ == digest_of(text@),
        digest@.len() == DIGEST_LEN,
{
    proof {
        lemma_hex_len(fnv1a(encode_utf8(text@)) as nat, DIGEST_LEN as nat);
    }
    hex(fnv1a_bytes(text.as_bytes()))
}

/// A number in decimal digits, without leading zeros.
pub open spec fn decimal_of(value: nat) -> Seq<char>
    decreases value,
{
    if value < 10 {
        seq![hex_digit(value as int)]
    } else {
        decimal_of(value / 10).push(hex_digit((value % 10) as int))
    }
}

/// A small number in decimal digits.
pub fn decimal(value: u8) -> (s: String)
    ensures
        s@ == decimal_of(value as nat),
{
    let mut digits: Vec<char> = Vec::new();
    let mut rest: u8 = value;
    while rest >= 10
        invariant
            decimal_of(value as nat) == decimal_of(rest as nat) + digits@,
        decreases rest,
    {
        let c = digit_for((rest % 10) as u64);
        proof {
            let head = decimal_of((rest / 10) as nat);
            assert(head.push(c) + digits@ =~= head + digits@.insert(0, c));
        }
        digits.insert(0, c);
        rest = rest / 10;
    }
    let c = digit_for(rest as u64);
    proof {
        assert(seq![c] + digits@ =~= digits@.insert(0, c));
    }
    digits.insert(0, c);
    let n = digits.len();
    let s = string_of(&digits, 0, n);
    proof {
        assert(digits@.subrange(0, n as int) =~= digits@);
    }
    s
}

/// A digest always has sixteen digits.
pub proof fn lemma_hex_len(value: nat, digits: nat)
    ensures
        hex_of(value, digits).len() == digits,
    decreases digits,
{
    if digits > 0 {
        lemma_hex_len(value / 16, (digits - 1) as nat);
    }
}

} // verus!
