//! Arithmetic decomposition of Hangul code points and the per-class index
//! functions, together with the two classifier predicates.

use vstd::arithmetic::div_mod::lemma_fundamental_div_mod;
use vstd::arithmetic::div_mod::lemma_fundamental_div_mod_converse;
use vstd::prelude::*;

use crate::data::HANGUL_BASE;
use crate::data::HANGUL_LAST;
use crate::data::JAMO_BASE;
use crate::data::LOWER_BASE;
use crate::data::NUMBER_BASE;
use crate::data::UPPER_BASE;

verus! {

/// Onset index of a complete Hangul syllable code point.
pub open spec fn onset_index_spec(cp: int) -> int {
    (cp - HANGUL_BASE) / 28 / 21
}

/// Nucleus index of a complete Hangul syllable code point.
pub open spec fn nucleus_index_spec(cp: int) -> int {
    (cp - HANGUL_BASE) / 28 % 21
}

/// Coda index of a complete Hangul syllable code point.
pub open spec fn coda_index_spec(cp: int) -> int {
    (cp - HANGUL_BASE) % 28
}

/// The complete Hangul syllable composed of the given onset, nucleus and
/// coda indices.
pub open spec fn compose_syllable(onset: int, nucleus: int, coda: int) -> int {
    HANGUL_BASE + onset * 588 + nucleus * 28 + coda
}

pub fn get_onset_index(c: char) -> (r: u32)
    requires
        HANGUL_BASE <= c as u32 <= HANGUL_LAST,
    ensures
        r == onset_index_spec(c as u32 as int),
        r <= 18,
{
    (c as u32 - HANGUL_BASE) / 28 / 21
}

pub fn get_nucleus_index(c: char) -> (r: u32)
    requires
        HANGUL_BASE <= c as u32 <= HANGUL_LAST,
    ensures
        r == nucleus_index_spec(c as u32 as int),
        r <= 20,
{
    (c as u32 - HANGUL_BASE) / 28 % 21
}

pub fn get_coda_index(c: char) -> (r: u32)
    requires
        HANGUL_BASE <= c as u32 <= HANGUL_LAST,
    ensures
        r == coda_index_spec(c as u32 as int),
        r <= 27,
{
    (c as u32 - HANGUL_BASE) % 28
}

pub fn get_not_complete_hangul_index(c: char) -> (r: u32)
    requires
        JAMO_BASE <= c as u32,
    ensures
        r == c as u32 - JAMO_BASE,
{
    c as u32 - JAMO_BASE
}

pub fn get_lower_engish_index(c: char) -> (r: u32)
    requires
        LOWER_BASE <= c as u32,
    ensures
        r == c as u32 - LOWER_BASE,
{
    c as u32 - LOWER_BASE
}

pub fn get_upper_engish_index(c: char) -> (r: u32)
    requires
        UPPER_BASE <= c as u32,
    ensures
        r == c as u32 - UPPER_BASE,
{
    c as u32 - UPPER_BASE
}

pub fn get_number_index(c: char) -> (r: u32)
    requires
        NUMBER_BASE <= c as u32,
    ensures
        r == c as u32 - NUMBER_BASE,
{
    c as u32 - NUMBER_BASE
}

/// True exactly when the code point of `c` lies in the inclusive interval.
pub fn is_char_in_range(range: (u32, u32), c: char) -> (r: bool)
    ensures
        r == (range.0 <= c as u32 <= range.1),
{
    let cp = c as u32;
    range.0 <= cp && cp <= range.1
}

/// True exactly when the code point of `c` is an element of the list.
pub fn is_char_in_array(array: &Vec<u32>, c: char) -> (r: bool)
    ensures
        r == array@.contains(c as u32),
{
    let cp = c as u32;
    let n = array.len();
    let mut i: usize = 0;
    while i < n
        invariant
            cp == c as u32,
            i <= n,
            n == array@.len(),
            forall|j: int| 0 <= j < i ==> array@[j] != cp,
        decreases n - i,
    {
        if array[i] == cp {
            assert(array@[i as int] == cp);
            assert(array@.contains(cp));
            return true;
        }
        i += 1;
    }
    assert(!array@.contains(cp));
    false
}

/// Decomposition inverts composition: the syllable built from an onset,
/// nucleus and coda index decomposes back into exactly those indices.
/// In particular, all syllables built on one onset share their onset
/// index whatever their nucleus and coda are, and syllables sharing a
/// nucleus and differing only in the coda have equal nucleus indices
/// while their coda indices differ exactly as the composed code points
/// do.
pub proof fn lemma_decompose_compose(onset: int, nucleus: int, coda: int)
    requires
        0 <= onset < 19,
        0 <= nucleus < 21,
        0 <= coda < 28,
    ensures
        HANGUL_BASE <= compose_syllable(onset, nucleus, coda) <= HANGUL_LAST,
        onset_index_spec(compose_syllable(onset, nucleus, coda)) == onset,
        nucleus_index_spec(compose_syllable(onset, nucleus, coda)) == nucleus,
        coda_index_spec(compose_syllable(onset, nucleus, coda)) == coda,
{
    let x = onset * 588 + nucleus * 28 + coda;
    assert(x == (onset * 21 + nucleus) * 28 + coda);
    lemma_fundamental_div_mod_converse(x, 28, onset * 21 + nucleus, coda);
    lemma_fundamental_div_mod_converse(onset * 21 + nucleus, 21, onset, nucleus);
}

/// Composition inverts decomposition: every complete Hangul syllable code
/// point is exactly the syllable composed of its three indices, and the
/// indices lie in their declared ranges.
pub proof fn lemma_compose_decompose(cp: int)
    requires
        HANGUL_BASE <= cp <= HANGUL_LAST,
    ensures
        compose_syllable(onset_index_spec(cp), nucleus_index_spec(cp), coda_index_spec(cp)) == cp,
        0 <= onset_index_spec(cp) < 19,
        0 <= nucleus_index_spec(cp) < 21,
        0 <= coda_index_spec(cp) < 28,
{
    let x = cp - HANGUL_BASE;
    lemma_fundamental_div_mod(x, 28);
    lemma_fundamental_div_mod(x / 28, 21);
}

} // verus!
