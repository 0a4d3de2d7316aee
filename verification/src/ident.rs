//! Session identifiers.
//!
//! The server mints one fresh numeric identifier per session, counting
//! upward, and never reuses one while its registry entry is live.  On the
//! wire the identifier travels as an opaque string, `"id-"` followed by the
//! decimal digits of the number.  Distinct numbers give distinct strings.

use vstd::prelude::*;
use vstd::utf8::*;

verus! {

/// The decimal digit bytes of `n`, most significant first.
pub open spec fn decimal_bytes(n: nat) -> Seq<u8>
    decreases n,
{
    if n < 10 {
        seq![(n + 48) as u8]
    } else {
        decimal_bytes((n / 10) as nat).push(((n % 10) + 48) as u8)
    }
}

/// The bytes of the identifier string for numeric id `n`: `"id-"` then the
/// decimal digits of `n`.
pub open spec fn id_bytes(n: nat) -> Seq<u8> {
    seq![105u8, 100u8, 45u8] + decimal_bytes(n)
}

/// The identifier string, as characters, for numeric id `n`.
pub open spec fn id_chars(n: nat) -> Seq<char> {
    decode_utf8(id_bytes(n))
}

/// Decimal digit bytes are ASCII digits, and there is at least one; numbers
/// of ten or more have at least two.
proof fn lemma_decimal_bytes_shape(n: nat)
    ensures
        decimal_bytes(n).len() >= 1,
        n >= 10 ==> decimal_bytes(n).len() >= 2,
        forall|i: int| 0 <= i < decimal_bytes(n).len() ==> 48 <= #[trigger] decimal_bytes(n)[i]
            <= 57,
    decreases n,
{
    if n >= 10 {
        lemma_decimal_bytes_shape((n / 10) as nat);
    }
}

/// The identifier bytes are valid UTF-8.
proof fn lemma_id_bytes_valid(n: nat)
    ensures
        valid_utf8(id_bytes(n)),
{
    lemma_decimal_bytes_shape(n);
    let b = id_bytes(n);
    assert(forall|i: int| 0 <= i < b.len() ==> #[trigger] is_leading_byte_width_1(b[i]));
    assert(b.subrange(0, 0) =~= Seq::<u8>::empty());
    partial_valid_utf8_extend_ascii_block(b, 0, b.len() as int);
    assert(b.subrange(0, b.len() as int) =~= b);
}

/// Distinct numbers have distinct decimal digits.
proof fn lemma_decimal_bytes_injective(a: nat, b: nat)
    requires
        decimal_bytes(a) == decimal_bytes(b),
    ensures
        a == b,
    decreases a + b,
{
    lemma_decimal_bytes_shape(a);
    lemma_decimal_bytes_shape(b);
    if a < 10 && b < 10 {
        assert(decimal_bytes(a) == seq![((a + 48) as u8)]);
        assert(decimal_bytes(b) == seq![((b + 48) as u8)]);
        assert(decimal_bytes(a)[0] == (a + 48) as u8);
        assert(decimal_bytes(b)[0] == (b + 48) as u8);
        assert(decimal_bytes(a)[0] == decimal_bytes(b)[0]);
        assert(((a + 48) as u8) as nat == a + 48);
        assert(((b + 48) as u8) as nat == b + 48);
    } else if a >= 10 && b >= 10 {
        assert(decimal_bytes(a) == decimal_bytes((a / 10) as nat).push(((a % 10) + 48) as u8));
        assert(decimal_bytes(b) == decimal_bytes((b / 10) as nat).push(((b % 10) + 48) as u8));
        assert(decimal_bytes(a).last() == ((a % 10) + 48) as u8);
        assert(decimal_bytes(b).last() == ((b % 10) + 48) as u8);
        assert(decimal_bytes(a).last() == decimal_bytes(b).last());
        assert((((a % 10) + 48) as u8) as nat == (a % 10) + 48);
        assert((((b % 10) + 48) as u8) as nat == (b % 10) + 48);
        assert(a % 10 == b % 10);
        assert(decimal_bytes(a).drop_last() =~= decimal_bytes((a / 10) as nat));
        assert(decimal_bytes(b).drop_last() =~= decimal_bytes((b / 10) as nat));
        lemma_decimal_bytes_injective((a / 10) as nat, (b / 10) as nat);
        assert(a / 10 == b / 10);
        vstd::arithmetic::div_mod::lemma_fundamental_div_mod(a as int, 10);
        vstd::arithmetic::div_mod::lemma_fundamental_div_mod(b as int, 10);
        assert(a == 10 * (a / 10) + a % 10);
        assert(b == 10 * (b / 10) + b % 10);
    } else if a < 10 {
        assert(decimal_bytes(a) == seq![((a + 48) as u8)]);
        assert(decimal_bytes(a).len() == 1);
        assert(decimal_bytes(b).len() >= 2);
    } else {
        assert(decimal_bytes(b) == seq![((b + 48) as u8)]);
        assert(decimal_bytes(b).len() == 1);
        assert(decimal_bytes(a).len() >= 2);
    }
}

/// Distinct numeric ids are spelled as distinct identifier strings: the
/// identifier never collides across sessions.
pub proof fn lemma_id_chars_injective(a: nat, b: nat)
    requires
        id_chars(a) == id_chars(b),
    ensures
        a == b,
{
    lemma_id_bytes_valid(a);
    lemma_id_bytes_valid(b);
    decode_utf8_encode_utf8(id_bytes(a));
    decode_utf8_encode_utf8(id_bytes(b));
    assert(id_bytes(a) == id_bytes(b));
    assert(decimal_bytes(a) =~= id_bytes(a).subrange(3, id_bytes(a).len() as int));
    assert(decimal_bytes(b) =~= id_bytes(b).subrange(3, id_bytes(b).len() as int));
    lemma_decimal_bytes_injective(a, b);
}

/// Append the decimal digits of `n` to `dst`.
fn push_decimal(dst: &mut Vec<u8>, n: u64)
    ensures
        final(dst)@ == old(dst)@ + decimal_bytes(n as nat),
    decreases n,
{
    if n < 10 {
        dst.push((n + 48) as u8);
        proof {
            assert(dst@ =~= old(dst)@ + decimal_bytes(n as nat));
        }
    } else {
        push_decimal(dst, n / 10);
        dst.push(((n % 10) + 48) as u8);
        proof {
            assert(dst@ =~= old(dst)@ + decimal_bytes(n as nat));
        }
    }
}

/// Spell the numeric session id `n` as its wire identifier, `"id-"` followed
/// by the decimal digits of `n`.
pub fn id_string(n: u64) -> (id: String)
    ensures
        id@ == id_chars(n as nat),
{
    let mut bytes: Vec<u8> = Vec::new();
    bytes.push(105);
    bytes.push(100);
    bytes.push(45);
    push_decimal(&mut bytes, n);
    proof {
        assert(bytes@ =~= id_bytes(n as nat));
        lemma_id_bytes_valid(n as nat);
    }
    match crate::codec::string_from_utf8(bytes) {
        Some(id) => {
            proof {
                encode_utf8_decode_utf8(id@);
            }
            id
        },
        None => {
            proof {
                assert(false);
            }
            String::new()
        },
    }
}

} // verus!
