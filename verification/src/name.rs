//! Token names: capital letters, read as a number, with spacers between
//! them for show.

use crate::mint::SpacedRune;
use vstd::prelude::*;
use vstd::string::*;

verus! {

/// The most letters that a name can have.
pub const MAX_LETTERS: usize = 28;

/// Whether `c` is a capital letter of the Latin alphabet.
pub open spec fn is_letter(c: char) -> bool {
    65 <= c as u32 <= 90
}

/// Whether `c` is one of the two characters that space a name: a full stop
/// or a bullet.
pub open spec fn is_spacer(c: char) -> bool {
    c == '.' || c == '\u{2022}'
}

/// How many letters `s` holds.
pub open spec fn letter_count(s: Seq<char>) -> nat
    decreases s.len(),
{
    if s.len() == 0 {
        0
    } else if is_letter(s.last()) {
        letter_count(s.drop_last()) + 1
    } else {
        letter_count(s.drop_last())
    }
}

/// The number that the letters of `s` write, whatever stands between them:
/// `A` is 0 and `Z` is 25, `AA` is 26, and so on through the names of each
/// length in turn.
pub open spec fn rune_value(s: Seq<char>) -> nat
    decreases s.len(),
{
    if s.len() == 0 {
        0
    } else if is_letter(s.last()) {
        let before = if letter_count(s.drop_last()) == 0 {
            0
        } else {
            rune_value(s.drop_last()) + 1
        };
        before * 26 + (s.last() as u32 - 65) as nat
    } else {
        rune_value(s.drop_last())
    }
}

/// Two to the power `k`.
pub open spec fn two_to(k: nat) -> nat
    decreases k,
{
    if k == 0 {
        1
    } else {
        2 * two_to((k - 1) as nat)
    }
}

/// The spacers of `s` as bits: bit `k` stands for a spacer behind the
/// letter at position `k` of the name.
pub open spec fn spacer_bits(s: Seq<char>) -> nat
    decreases s.len(),
{
    if s.len() == 0 {
        0
    } else if is_spacer(s.last()) && letter_count(s.drop_last()) > 0 {
        spacer_bits(s.drop_last()) + two_to((letter_count(s.drop_last()) - 1) as nat)
    } else {
        spacer_bits(s.drop_last())
    }
}

/// Whether `s` is letters and spacers alone, starts and ends with a letter,
/// and has no two spacers in a row.
pub open spec fn well_spaced(s: Seq<char>) -> bool {
    &&& s.len() > 0
    &&& is_letter(s[0])
    &&& is_letter(s.last())
    &&& forall|i: int| 0 <= i < s.len() ==> is_letter(#[trigger] s[i]) || is_spacer(s[i])
    &&& forall|i: int| 0 < i < s.len() ==> !(is_spacer(s[i - 1]) && is_spacer(#[trigger] s[i]))
}

/// The token name that `s` writes, with its spacers; none where `s` is not
/// well spaced, has more letters than a name can have, or writes a number
/// beyond 128 bits.
pub open spec fn parsed_spaced_rune(s: Seq<char>) -> Option<SpacedRune> {
    if well_spaced(s) && letter_count(s) <= MAX_LETTERS && rune_value(s) <= u128::MAX {
        Some(SpacedRune { rune: rune_value(s) as u128, spacers: spacer_bits(s) as u32 })
    } else {
        None
    }
}

/// Letters and value only grow along a text.
pub proof fn lemma_name_grows(s: Seq<char>, n: int)
    requires
        0 <= n <= s.len(),
    ensures
        letter_count(s.take(n)) <= letter_count(s),
        rune_value(s.take(n)) <= rune_value(s),
    decreases s.len(),
{
    if n < s.len() {
        assert(s.drop_last().take(n) =~= s.take(n));
        lemma_name_grows(s.drop_last(), n);
        if is_letter(s.last()) && letter_count(s.drop_last()) == 0 {
            lemma_no_letters(s.drop_last());
            lemma_name_grows(s.drop_last(), n);
        }
    } else {
        assert(s.take(n) =~= s);
    }
}

/// A text without letters writes zero.
pub proof fn lemma_no_letters(s: Seq<char>)
    requires
        letter_count(s) == 0,
    ensures
        rune_value(s) == 0,
        spacer_bits(s) == 0,
    decreases s.len(),
{
    if s.len() > 0 {
        lemma_no_letters(s.drop_last());
    }
}

/// Reads a token name with its spacers.
pub fn parse_spaced_rune(s: &str) -> (r: Option<SpacedRune>)
    ensures
        r == parsed_spaced_rune(s@),
{
    let len: usize = s.unicode_len();
    let mut letters: usize = 0;
    let mut value: u128 = 0;
    let mut bits: u32 = 0;
    let mut flag: u32 = 1;
    let mut spaced: bool = false;
    let mut i: usize = 0;
    assert(s@.take(0) =~= Seq::<char>::empty());
    while i < len
        invariant
            i <= len,
            len == s@.len(),
            letters == letter_count(s@.take(i as int)),
            letters <= MAX_LETTERS,
            letters <= i,
            value == rune_value(s@.take(i as int)),
            bits == spacer_bits(s@.take(i as int)),
            letters > 0 ==> flag == two_to((letters - 1) as nat),
            letters == 0 ==> flag == 1 && bits == 0,
            flag <= 0x800_0000,
            spaced ==> flag <= bits < 2 * flag,
            !spaced ==> bits < flag,
            i > 0 ==> is_letter(s@[0]),
            spaced == (i > 0 && is_spacer(s@[i - 1])),
            !spaced && i > 0 ==> is_letter(s@[i - 1]),
            forall|j: int| 0 <= j < i ==> is_letter(#[trigger] s@[j]) || is_spacer(s@[j]),
            forall|j: int| 0 < j < i ==> !(is_spacer(s@[j - 1]) && is_spacer(#[trigger] s@[j])),
        decreases len - i,
    {
        let c: char = s.get_char(i);
        let code: u32 = c as u32;
        let ghost prefix = s@.take(i as int);
        let ghost next = s@.take(i + 1);
        proof {
            assert(next.drop_last() =~= prefix);
            assert(next.last() == c);
            lemma_name_grows(s@, i + 1);
        }
        if code >= 65 && code <= 90 {
            let digit: u128 = (code - 65) as u128;
            if letters >= MAX_LETTERS {
                return None;
            }
            if letters > 0 {
                if value >= (u128::MAX - digit) / 26 {
                    return None;
                }
                proof {
                    lemma_two_to_bound((letters - 1) as nat);
                    lemma_two_to_bound(letters as nat);
                }
                value = (value + 1) * 26 + digit;
                flag = 2 * flag;
            } else {
                proof {
                    lemma_no_letters(prefix);
                }
                value = digit;
            }
            letters = letters + 1;
            spaced = false;
        } else if c == '.' || c == '\u{2022}' {
            if letters == 0 {
                assert(!is_letter(s@[0])) by {
                    if i > 0 {
                        assert(is_letter(s@.take(i as int)[0]));
                        lemma_first_letter_counts(prefix);
                    }
                }
                return None;
            }
            if spaced {
                assert(is_spacer(s@[i - 1]) && is_spacer(s@[i as int]));
                return None;
            }
            bits = bits + flag;
            spaced = true;
        } else {
            assert(!(is_letter(s@[i as int]) || is_spacer(s@[i as int])));
            return None;
        }
        i = i + 1;
    }
    assert(s@.take(len as int) =~= s@);
    if len == 0 || spaced {
        return None;
    }
    Some(SpacedRune { rune: value, spacers: bits })
}

/// The flag of each of the 28 positions of a name fits 28 bits.
pub proof fn lemma_two_to_bound(k: nat)
    requires
        k <= 27,
    ensures
        two_to(k) <= 0x800_0000,
    decreases 27 - k,
{
    if k < 27 {
        lemma_two_to_bound(k + 1);
    } else {
        reveal_with_fuel(two_to, 28);
    }
}

/// A text that starts with a letter holds a letter.
pub proof fn lemma_first_letter_counts(s: Seq<char>)
    requires
        s.len() > 0,
        is_letter(s[0]),
    ensures
        letter_count(s) > 0,
    decreases s.len(),
{
    if s.len() > 1 {
        assert(s.drop_last()[0] == s[0]);
        lemma_first_letter_counts(s.drop_last());
    }
}

} // verus!
