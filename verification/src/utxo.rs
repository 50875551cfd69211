//! References to unspent outputs, written as `txid:vout`.

use crate::error::MintError;
use vstd::prelude::*;
use vstd::string::*;

verus! {

/// The position of the first colon of `s`, or the length of `s` where it
/// holds none.
pub open spec fn first_colon(s: Seq<char>) -> int
    decreases s.len(),
{
    if s.len() == 0 || s[0] == ':' {
        0
    } else {
        1 + first_colon(s.skip(1))
    }
}

/// Whether `c` is one of the ten decimal digits.
pub open spec fn is_digit(c: char) -> bool {
    48 <= c as u32 <= 57
}

/// The number that a string of decimal digits writes; `None` where a
/// character of it is no digit. The empty string writes zero.
pub open spec fn digits_value(s: Seq<char>) -> Option<nat>
    decreases s.len(),
{
    if s.len() == 0 {
        Some(0)
    } else {
        match digits_value(s.drop_last()) {
            Some(high) if is_digit(s.last()) => Some(10 * high + (s.last() as u32 - 48) as nat),
            _ => None,
        }
    }
}

/// What `s` reads as an output index: decimal digits, at least one, after an
/// optional plus sign, whose value fits 32 bits.
pub open spec fn parsed_index(s: Seq<char>) -> Option<u32> {
    let body = if s.len() > 0 && s[0] == '+' {
        s.skip(1)
    } else {
        s
    };
    if body.len() == 0 {
        None
    } else {
        match digits_value(body) {
            Some(v) if v <= u32::MAX => Some(v as u32),
            _ => None,
        }
    }
}

/// What `s` reads as a reference to an output: the text before its one
/// colon, and the index that the text after it writes. `None` where `s` holds
/// no colon or more than one, or where what follows the colon is no index.
pub open spec fn parsed_utxo(s: Seq<char>) -> Option<(Seq<char>, u32)> {
    let at = first_colon(s);
    if at >= s.len() {
        None
    } else {
        let tail = s.subrange(at + 1, s.len() as int);
        if tail.contains(':') {
            None
        } else {
            match parsed_index(tail) {
                Some(vout) => Some((s.subrange(0, at), vout)),
                None => None,
            }
        }
    }
}

/// The first colon stands where no colon comes before and either a colon
/// stands or the string ends.
pub proof fn lemma_first_colon(s: Seq<char>, at: int)
    requires
        0 <= at <= s.len(),
        forall|j: int| 0 <= j < at ==> s[j] != ':',
        at < s.len() ==> s[at] == ':',
    ensures
        first_colon(s) == at,
    decreases s.len(),
{
    if at > 0 {
        lemma_first_colon(s.skip(1), at - 1);
    }
}

/// A string with a character that is no digit writes no number.
pub proof fn lemma_digits_reject(s: Seq<char>, at: int)
    requires
        0 <= at < s.len(),
        !is_digit(s[at]),
    ensures
        digits_value(s) is None,
    decreases s.len(),
{
    if at < s.len() - 1 {
        lemma_digits_reject(s.drop_last(), at);
    }
}

/// Further digits never make a number smaller.
pub proof fn lemma_digits_grow(s: Seq<char>, n: int)
    requires
        0 <= n <= s.len(),
    ensures
        match (digits_value(s.take(n)), digits_value(s)) {
            (Some(short), Some(long)) => short <= long,
            (None, Some(_)) => false,
            _ => true,
        },
    decreases s.len(),
{
    if n < s.len() {
        assert(s.drop_last().take(n) =~= s.take(n));
        lemma_digits_grow(s.drop_last(), n);
    } else {
        assert(s.take(n) =~= s);
    }
}

/// Reads an output index as the standard library reads a `u32`.
pub fn parse_index(s: &str) -> (r: Option<u32>)
    ensures
        r == parsed_index(s@),
{
    let len: usize = s.unicode_len();
    if len == 0 {
        return None;
    }
    let start: usize = if s.get_char(0) == '+' {
        1
    } else {
        0
    };
    if start == len {
        return None;
    }
    let ghost body = s@.skip(start as int);
    proof {
        if start == 0 {
            assert(body =~= s@);
        }
    }
    let mut value: u64 = 0;
    let mut i: usize = start;
    assert(body.take(0) =~= Seq::<char>::empty());
    while i < len
        invariant
            start <= i <= len,
            len == s@.len(),
            body == s@.skip(start as int),
            body.len() > 0,
            parsed_index(s@) == match digits_value(body) {
                Some(v) if v <= u32::MAX => Some(v as u32),
                _ => None,
            },
            digits_value(body.take(i - start)) == Some(value as nat),
            value <= u32::MAX,
        decreases len - i,
    {
        let c: char = s.get_char(i);
        let code: u32 = c as u32;
        proof {
            assert(body[i - start] == c);
            assert(body.take(i - start + 1).drop_last() =~= body.take(i - start));
            assert(body.take(i - start + 1).last() == c);
            lemma_digits_grow(body, i - start + 1);
        }
        if code < 48 || code > 57 {
            proof {
                lemma_digits_reject(body, i - start);
            }
            return None;
        }
        let digit: u64 = (code - 48) as u64;
        value = 10 * value + digit;
        if value > 0xffff_ffff {
            return None;
        }
        i = i + 1;
    }
    assert(body.take(len - start) =~= body);
    Some(value as u32)
}

/// Splits a reference to an unspent output, written as a transaction id, a
/// colon and an output index, into the id's text and the index.
pub fn parse_utxo(utxo: &str) -> (r: Result<(String, u32), MintError>)
    ensures
        match r {
            Ok((txid, vout)) => parsed_utxo(utxo@) == Some((txid@, vout)),
            Err(e) => e == MintError::InvalidUtxoFormat && parsed_utxo(utxo@) is None,
        },
{
    let len: usize = utxo.unicode_len();
    let mut at: usize = 0;
    while at < len && utxo.get_char(at) != ':'
        invariant
            at <= len,
            len == utxo@.len(),
            forall|j: int| 0 <= j < at ==> utxo@[j] != ':',
        decreases len - at,
    {
        at = at + 1;
    }
    proof {
        lemma_first_colon(utxo@, at as int);
    }
    if at >= len {
        return Err(MintError::InvalidUtxoFormat);
    }
    let ghost tail = utxo@.subrange(at + 1, len as int);
    let mut j: usize = at + 1;
    while j < len
        invariant
            at < j <= len,
            len == utxo@.len(),
            first_colon(utxo@) == at,
            tail == utxo@.subrange(at + 1, len as int),
            forall|k: int| 0 <= k < j - at - 1 ==> tail[k] != ':',
        decreases len - j,
    {
        if utxo.get_char(j) == ':' {
            proof {
                let k = j - at - 1;
                assert(0 <= k < tail.len() && tail[k] == ':');
                assert(tail.contains(':'));
            }
            return Err(MintError::InvalidUtxoFormat);
        }
        j = j + 1;
    }
    assert(!tail.contains(':'));
    let txid: &str = utxo.substring_char(0, at);
    let index: &str = utxo.substring_char(at + 1, len);
    match parse_index(index) {
        Some(vout) => Ok((txid.to_owned(), vout)),
        None => Err(MintError::InvalidUtxoFormat),
    }
}

} // verus!
