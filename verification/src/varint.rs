//! Variable-length integers: seven bits per byte, least significant group
//! first, the high bit of a byte set when another byte follows.

use vstd::prelude::*;

verus! {

/// Why a byte string does not start with a well-formed integer.
#[derive(Clone, Copy, Debug, PartialEq, Eq, Structural)]
pub enum VarintError {
    /// More than nineteen bytes carry a continuation bit.
    Overlong,
    /// The nineteenth byte holds bits beyond the 128th.
    Overflow,
    /// The bytes end while a continuation bit is set.
    Unterminated,
}

/// The encoding of `n`.
pub open spec fn encoded(n: nat) -> Seq<u8>
    decreases n,
{
    if n < 128 {
        seq![n as u8]
    } else {
        seq![(n % 128 + 128) as u8] + encoded(n / 128)
    }
}

/// Exclusive bound on the value that the bytes from position `k` of an
/// encoding may contribute: 4 at the nineteenth byte, 128 times more for
/// each byte before it.
pub open spec fn limit(k: nat) -> nat
    decreases 18 - k,
{
    if k >= 18 {
        4
    } else {
        128 * limit(k + 1)
    }
}

/// What decoding yields on `bytes`, which stand at position `k` of an
/// encoding: the value and the number of bytes read.
pub open spec fn decoded_at(bytes: Seq<u8>, k: nat) -> Result<(nat, nat), VarintError>
    decreases bytes.len(),
{
    if bytes.len() == 0 {
        Err(VarintError::Unterminated)
    } else if k > 18 {
        Err(VarintError::Overlong)
    } else if k == 18 && bytes[0] % 128 >= 4 {
        Err(VarintError::Overflow)
    } else if bytes[0] < 128 {
        Ok((bytes[0] as nat, 1))
    } else {
        match decoded_at(bytes.skip(1), k + 1) {
            Ok((n, used)) => Ok(((bytes[0] % 128) as nat + 128 * n, used + 1)),
            Err(e) => Err(e),
        }
    }
}

/// What decoding yields on the integer at the front of `bytes`.
pub open spec fn decoded(bytes: Seq<u8>) -> Result<(nat, nat), VarintError> {
    decoded_at(bytes, 0)
}

/// The bound shrinks from byte to byte.
pub proof fn lemma_limit_monotone(k: nat)
    ensures
        4 <= limit(k) <= limit(0),
    decreases k,
{
    lemma_limit_positive(k);
    if k > 18 {
        lemma_limit_monotone(18);
    } else if k > 0 {
        lemma_limit_monotone((k - 1) as nat);
    }
}

proof fn lemma_limit_positive(k: nat)
    ensures
        4 <= limit(k),
    decreases 18 - k,
{
    if k < 18 {
        lemma_limit_positive(k + 1);
    }
}

/// At the front of an encoding the bound is two to the 128th.
pub proof fn lemma_limit_zero()
    ensures
        limit(0) == 0x1_0000_0000_0000_0000_0000_0000_0000_0000,
{
    reveal_with_fuel(limit, 20);
}

/// A decoded value stays under the bound of its position, and at least one
/// byte is read, none beyond the end.
pub proof fn lemma_decoded_bounds(bytes: Seq<u8>, k: nat)
    ensures
        decoded_at(bytes, k) matches Ok((n, used)) ==> n < limit(k) && 1 <= used <= bytes.len(),
    decreases bytes.len(),
{
    if bytes.len() > 0 && k <= 18 && !(k == 18 && bytes[0] % 128 >= 4) {
        lemma_limit_positive(k);
        if bytes[0] >= 128 {
            lemma_decoded_bounds(bytes.skip(1), k + 1);
            if k == 18 {
                assert(decoded_at(bytes.skip(1), 19) is Err);
            }
        } else if k < 18 {
            lemma_limit_positive(k + 1);
        }
    }
}

/// Decoding reads back what encoding wrote, whatever follows it.
pub proof fn lemma_decode_encoded(n: nat, rest: Seq<u8>, k: nat)
    requires
        n < limit(k),
        k <= 18,
    ensures
        decoded_at(encoded(n) + rest, k) == Ok::<(nat, nat), VarintError>((n, encoded(n).len())),
    decreases n,
{
    let bytes = encoded(n) + rest;
    if n < 128 {
        assert(bytes[0] == n as u8);
    } else {
        assert(bytes[0] == (n % 128 + 128) as u8);
        assert(k < 18);
        assert(bytes.skip(1) =~= encoded(n / 128) + rest);
        lemma_decode_encoded(n / 128, rest, k + 1);
    }
}

/// An encoding of a 128-bit value is between one and nineteen bytes long.
pub proof fn lemma_encoded_len(n: nat, k: nat)
    requires
        n < limit(k),
        k <= 18,
    ensures
        1 <= encoded(n).len() <= 19 - k,
    decreases n,
{
    if n >= 128 {
        lemma_encoded_len(n / 128, k + 1);
    }
}

/// 128 to the power `len`: the first value whose encoding takes more than
/// `len` bytes.
pub open spec fn reach(len: nat) -> nat
    decreases len,
{
    if len == 0 {
        1
    } else {
        128 * reach((len - 1) as nat)
    }
}

/// A value under 128 to the power `len` is encoded in at most `len` bytes.
pub proof fn lemma_encoded_within(n: nat, len: nat)
    requires
        len >= 1,
        n < reach(len),
    ensures
        1 <= encoded(n).len() <= len,
    decreases n,
{
    if n >= 128 {
        assert(len >= 2) by {
            reveal_with_fuel(reach, 2);
        }
        lemma_encoded_within(n / 128, (len - 1) as nat);
    }
}

/// Appends the encoding of `n` to `out`.
pub fn encode_to_vec(n: u128, out: &mut Vec<u8>)
    ensures
        final(out)@ == old(out)@ + encoded(n as nat),
{
    let mut rest: u128 = n;
    while rest >= 128
        invariant
            old(out)@ + encoded(n as nat) == out@ + encoded(rest as nat),
        decreases rest,
    {
        let low: u128 = rest % 128 + 128;
        proof {
            assert(out@.push(low as u8) + encoded((rest / 128) as nat) =~= out@ + encoded(
                rest as nat,
            ));
        }
        out.push(low as u8);
        rest = rest / 128;
    }
    proof {
        assert(out@.push(rest as u8) =~= out@ + encoded(rest as nat));
    }
    out.push(rest as u8);
}

/// The encoding of `n` as a vector of its own.
pub fn encode(n: u128) -> (out: Vec<u8>)
    ensures
        out@ == encoded(n as nat),
{
    let mut out: Vec<u8> = Vec::new();
    encode_to_vec(n, &mut out);
    proof {
        assert(Seq::<u8>::empty() + encoded(n as nat) =~= encoded(n as nat));
    }
    out
}

fn decode_from(buffer: &[u8], pos: usize, k: usize) -> (r: Result<(u128, usize), VarintError>)
    requires
        pos <= buffer@.len(),
        k <= 19,
    ensures
        match r {
            Ok((n, used)) => decoded_at(buffer@.skip(pos as int), k as nat) == Ok::<
                (nat, nat),
                VarintError,
            >((n as nat, used as nat)) && n < limit(k as nat) && pos + used <= buffer@.len(),
            Err(e) => decoded_at(buffer@.skip(pos as int), k as nat) == Err::<
                (nat, nat),
                VarintError,
            >(e),
        },
    decreases buffer@.len() - pos,
{
    let ghost bytes = buffer@.skip(pos as int);
    if pos >= buffer.len() {
        return Err(VarintError::Unterminated);
    }
    if k > 18 {
        return Err(VarintError::Overlong);
    }
    let byte: u8 = buffer[pos];
    assert(bytes[0] == byte);
    if k == 18 && byte % 128 >= 4 {
        return Err(VarintError::Overflow);
    }
    proof {
        lemma_decoded_bounds(bytes, k as nat);
        lemma_limit_monotone(k as nat);
        lemma_limit_zero();
    }
    if byte < 128 {
        return Ok((byte as u128, 1));
    }
    assert(bytes.skip(1) =~= buffer@.skip(pos + 1));
    match decode_from(buffer, pos + 1, k + 1) {
        Ok((high, used)) => {
            assert(k < 18);
            let low: u128 = (byte % 128) as u128;
            Ok((low + 128 * high, used + 1))
        },
        Err(e) => Err(e),
    }
}

/// Reads the integer at the front of `buffer`: its value and how many bytes
/// it took.
pub fn decode(buffer: &[u8]) -> (r: Result<(u128, usize), VarintError>)
    ensures
        match r {
            Ok((n, used)) => decoded(buffer@) == Ok::<(nat, nat), VarintError>(
                (n as nat, used as nat),
            ) && 1 <= used <= buffer@.len(),
            Err(e) => decoded(buffer@) == Err::<(nat, nat), VarintError>(e),
        },
{
    assert(buffer@.skip(0) =~= buffer@);
    proof {
        lemma_decoded_bounds(buffer@, 0);
    }
    decode_from(buffer, 0, 0)
}

} // verus!
