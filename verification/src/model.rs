//! The mathematical model of the Porter stemming algorithm: consonant and
//! vowel classification, the measure, suffix matching, the five
//! transformation steps, and the whole pipeline, all as functions over
//! sequences of characters. The executable engine in `stemmer` is proved to
//! return exactly what `stem_spec` describes.

use vstd::prelude::*;

verus! {

/// True when the character is one of the five vowel letters.
pub open spec fn is_vowel_letter(c: char) -> bool {
    c == 'a' || c == 'e' || c == 'i' || c == 'o' || c == 'u'
}

/// Consonant classification for position `i` of the word `w`: the five
/// vowels are not consonants, `y` is a consonant at the start of the word
/// and after a non-consonant, and every other character is a consonant.
pub open spec fn is_cons(w: Seq<char>, i: int) -> bool
    recommends
        0 <= i < w.len(),
    decreases i,
{
    if is_vowel_letter(w[i]) {
        false
    } else if w[i] == 'y' {
        if i <= 0 {
            true
        } else {
            !is_cons(w, i - 1)
        }
    } else {
        true
    }
}

/// Porter's measure of the region made of the first `n` characters of `w`:
/// the number of complete vowel-run-then-consonant-run pairs, counted as the
/// number of positions below `n` where a consonant directly follows a
/// non-consonant.
pub open spec fn measure_prefix(w: Seq<char>, n: int) -> nat
    recommends
        n <= w.len(),
    decreases n,
{
    if n <= 1 {
        0
    } else {
        measure_prefix(w, n - 1) + (if is_cons(w, n - 1) && !is_cons(w, n - 2) {
            1nat
        } else {
            0nat
        })
    }
}

/// True when some position among the first `n` characters of `w` does not
/// hold a consonant.
pub open spec fn has_vowel(w: Seq<char>, n: int) -> bool {
    exists|i: int| 0 <= i < n && !is_cons(w, i)
}

/// True when positions `i - 1` and `i` of `w` hold the same character and it
/// is a consonant there.
pub open spec fn double_cons(w: Seq<char>, i: int) -> bool {
    i >= 1 && w[i] == w[i - 1] && is_cons(w, i)
}

/// Porter's short-word test at position `i`: positions `i - 2`, `i - 1`, `i`
/// read consonant, vowel, consonant, and the final consonant is not `w`,
/// `x` or `y`.
pub open spec fn cvc_at(w: Seq<char>, i: int) -> bool {
    i >= 2 && is_cons(w, i) && !is_cons(w, i - 1) && is_cons(w, i - 2) && w[i] != 'w' && w[i]
        != 'x' && w[i] != 'y'
}

/// True when `w` ends with the suffix `s`.
pub open spec fn ends_in(w: Seq<char>, s: Seq<char>) -> bool {
    s.len() <= w.len() && w.skip(w.len() - s.len()) == s
}

/// The shared guard of steps 2 and 3: when the stem made of the first `j`
/// characters of `w` has positive measure, the rest of `w` is replaced by
/// `r`; otherwise `w` stands.
pub open spec fn replace_measured(w: Seq<char>, j: int, r: Seq<char>) -> Seq<char>
    recommends
        0 <= j <= w.len(),
{
    if measure_prefix(w, j) > 0 {
        w.take(j) + r
    } else {
        w
    }
}

/// Step 1a: plural endings. `sses` loses its tail, `ies` becomes `i`, and a
/// final `s` not preceded by another `s` is dropped.
pub open spec fn step1a(w: Seq<char>) -> Seq<char>
    recommends
        w.len() >= 2,
{
    if w.len() >= 1 && w.last() == 's' {
        if ends_in(w, seq!['s', 's', 'e', 's']) {
            w.take(w.len() - 2)
        } else if ends_in(w, seq!['i', 'e', 's']) {
            w.take(w.len() - 3).push('i')
        } else if w.len() >= 2 && w[w.len() - 2] != 's' {
            w.take(w.len() - 1)
        } else {
            w
        }
    } else {
        w
    }
}

/// The adjustment of step 1b after an `ed` or `ing` ending has been removed
/// from a stem with a vowel: `at`, `bl` and `iz` regain an `e`, a trailing
/// double consonant other than `ll`, `ss`, `zz` loses one copy, and a short
/// stem of measure one ending consonant-vowel-consonant regains an `e`.
pub open spec fn step1b_adjust(st: Seq<char>) -> Seq<char>
    recommends
        st.len() >= 1,
{
    if ends_in(st, seq!['a', 't']) || ends_in(st, seq!['b', 'l']) || ends_in(
        st,
        seq!['i', 'z'],
    ) {
        st.push('e')
    } else if double_cons(st, st.len() - 1) {
        if st.last() == 'l' || st.last() == 's' || st.last() == 'z' {
            st
        } else {
            st.take(st.len() - 1)
        }
    } else if measure_prefix(st, st.len() as int) == 1 && cvc_at(st, st.len() - 1) {
        st.push('e')
    } else {
        st
    }
}

/// Step 1b: an `eed` ending loses its `d` when the stem before it has
/// positive measure; an `ed` or `ing` ending whose stem holds a vowel is
/// removed and the stem adjusted.
pub open spec fn step1b(w: Seq<char>) -> Seq<char> {
    if ends_in(w, seq!['e', 'e', 'd']) {
        if measure_prefix(w, w.len() - 3) > 0 {
            w.take(w.len() - 1)
        } else {
            w
        }
    } else if ends_in(w, seq!['e', 'd']) && has_vowel(w, w.len() - 2) {
        step1b_adjust(w.take(w.len() - 2))
    } else if ends_in(w, seq!['i', 'n', 'g']) && has_vowel(w, w.len() - 3) {
        step1b_adjust(w.take(w.len() - 3))
    } else {
        w
    }
}

/// Step 1c: a final `y` becomes `i` when a vowel stands somewhere before it.
pub open spec fn step1c(w: Seq<char>) -> Seq<char> {
    if ends_in(w, seq!['y']) && has_vowel(w, w.len() - 1) {
        w.update(w.len() - 1, 'i')
    } else {
        w
    }
}

/// Step 2: compound suffixes, dispatched on the second-to-last character,
/// longest match first; the first match is replaced when the stem before it
/// has positive measure, and no further suffix is tried.
pub open spec fn step2(w: Seq<char>) -> Seq<char> {
    if w.len() < 2 {
        w
    } else {
        let c = w[w.len() - 2];
        if c == 'a' {
            if ends_in(w, seq!['a', 't', 'i', 'o', 'n', 'a', 'l']) {
                replace_measured(w, w.len() - 7, seq!['a', 't', 'e'])
            } else if ends_in(w, seq!['t', 'i', 'o', 'n', 'a', 'l']) {
                replace_measured(w, w.len() - 6, seq!['t', 'i', 'o', 'n'])
            } else {
                w
            }
        } else if c == 'c' {
            if ends_in(w, seq!['e', 'n', 'c', 'i']) {
                replace_measured(w, w.len() - 4, seq!['e', 'n', 'c', 'e'])
            } else if ends_in(w, seq!['a', 'n', 'c', 'i']) {
                replace_measured(w, w.len() - 4, seq!['a', 'n', 'c', 'e'])
            } else {
                w
            }
        } else if c == 'e' {
            if ends_in(w, seq!['i', 'z', 'e', 'r']) {
                replace_measured(w, w.len() - 4, seq!['i', 'z', 'e'])
            } else {
                w
            }
        } else if c == 'l' {
            if ends_in(w, seq!['b', 'l', 'i']) {
                replace_measured(w, w.len() - 3, seq!['b', 'l', 'e'])
            } else if ends_in(w, seq!['a', 'l', 'l', 'i']) {
                replace_measured(w, w.len() - 4, seq!['a', 'l'])
            } else if ends_in(w, seq!['e', 'n', 't', 'l', 'i']) {
                replace_measured(w, w.len() - 5, seq!['e', 'n', 't'])
            } else if ends_in(w, seq!['e', 'l', 'i']) {
                replace_measured(w, w.len() - 3, seq!['e'])
            } else if ends_in(w, seq!['o', 'u', 's', 'l', 'i']) {
                replace_measured(w, w.len() - 5, seq!['o', 'u', 's'])
            } else {
                w
            }
        } else if c == 'o' {
            if ends_in(w, seq!['i', 'z', 'a', 't', 'i', 'o', 'n']) {
                replace_measured(w, w.len() - 7, seq!['i', 'z', 'e'])
            } else if ends_in(w, seq!['a', 't', 'i', 'o', 'n']) {
                replace_measured(w, w.len() - 5, seq!['a', 't', 'e'])
            } else if ends_in(w, seq!['a', 't', 'o', 'r']) {
                replace_measured(w, w.len() - 4, seq!['a', 't', 'e'])
            } else {
                w
            }
        } else if c == 's' {
            if ends_in(w, seq!['a', 'l', 'i', 's', 'm']) {
                replace_measured(w, w.len() - 5, seq!['a', 'l'])
            } else if ends_in(w, seq!['i', 'v', 'e', 'n', 'e', 's', 's']) {
                replace_measured(w, w.len() - 7, seq!['i', 'v', 'e'])
            } else if ends_in(w, seq!['f', 'u', 'l', 'n', 'e', 's', 's']) {
                replace_measured(w, w.len() - 7, seq!['f', 'u', 'l'])
            } else if ends_in(w, seq!['o', 'u', 's', 'n', 'e', 's', 's']) {
                replace_measured(w, w.len() - 7, seq!['o', 'u', 's'])
            } else {
                w
            }
        } else if c == 't' {
            if ends_in(w, seq!['a', 'l', 'i', 't', 'i']) {
                replace_measured(w, w.len() - 5, seq!['a', 'l'])
            } else if ends_in(w, seq!['i', 'v', 'i', 't', 'i']) {
                replace_measured(w, w.len() - 5, seq!['i', 'v', 'e'])
            } else if ends_in(w, seq!['b', 'i', 'l', 'i', 't', 'i']) {
                replace_measured(w, w.len() - 6, seq!['b', 'l', 'e'])
            } else {
                w
            }
        } else if c == 'g' {
            if ends_in(w, seq!['l', 'o', 'g', 'i']) {
                replace_measured(w, w.len() - 4, seq!['l', 'o', 'g'])
            } else {
                w
            }
        } else {
            w
        }
    }
}

/// Step 3: adjective and noun suffixes, dispatched on the last character;
/// the first match is replaced when the stem before it has positive measure.
pub open spec fn step3(w: Seq<char>) -> Seq<char> {
    if w.len() < 1 {
        w
    } else {
        let c = w.last();
        if c == 'e' {
            if ends_in(w, seq!['i', 'c', 'a', 't', 'e']) {
                replace_measured(w, w.len() - 5, seq!['i', 'c'])
            } else if ends_in(w, seq!['a', 't', 'i', 'v', 'e']) {
                replace_measured(w, w.len() - 5, Seq::<char>::empty())
            } else if ends_in(w, seq!['a', 'l', 'i', 'z', 'e']) {
                replace_measured(w, w.len() - 5, seq!['a', 'l'])
            } else {
                w
            }
        } else if c == 'i' {
            if ends_in(w, seq!['i', 'c', 'i', 't', 'i']) {
                replace_measured(w, w.len() - 5, seq!['i', 'c'])
            } else {
                w
            }
        } else if c == 'l' {
            if ends_in(w, seq!['i', 'c', 'a', 'l']) {
                replace_measured(w, w.len() - 4, seq!['i', 'c'])
            } else if ends_in(w, seq!['f', 'u', 'l']) {
                replace_measured(w, w.len() - 3, Seq::<char>::empty())
            } else {
                w
            }
        } else if c == 's' {
            if ends_in(w, seq!['n', 'e', 's', 's']) {
                replace_measured(w, w.len() - 4, Seq::<char>::empty())
            } else {
                w
            }
        } else {
            w
        }
    }
}

/// The length of the ending that step 4 recognizes at the end of `w`, or 0
/// when it recognizes none. The `ion` ending counts only when the character
/// before it is `s` or `t`.
pub open spec fn step4_match(w: Seq<char>) -> int {
    if w.len() < 2 {
        0
    } else {
        let c = w[w.len() - 2];
        if c == 'a' {
            if ends_in(w, seq!['a', 'l']) {
                2
            } else {
                0
            }
        } else if c == 'c' {
            if ends_in(w, seq!['a', 'n', 'c', 'e']) {
                4
            } else if ends_in(w, seq!['e', 'n', 'c', 'e']) {
                4
            } else {
                0
            }
        } else if c == 'e' {
            if ends_in(w, seq!['e', 'r']) {
                2
            } else {
                0
            }
        } else if c == 'i' {
            if ends_in(w, seq!['i', 'c']) {
                2
            } else {
                0
            }
        } else if c == 'l' {
            if ends_in(w, seq!['a', 'b', 'l', 'e']) {
                4
            } else if ends_in(w, seq!['i', 'b', 'l', 'e']) {
                4
            } else {
                0
            }
        } else if c == 'n' {
            if ends_in(w, seq!['a', 'n', 't']) {
                3
            } else if ends_in(w, seq!['e', 'm', 'e', 'n', 't']) {
                5
            } else if ends_in(w, seq!['m', 'e', 'n', 't']) {
                4
            } else if ends_in(w, seq!['e', 'n', 't']) {
                3
            } else {
                0
            }
        } else if c == 'o' {
            if ends_in(w, seq!['i', 'o', 'n']) && w.len() >= 4 && (w[w.len() - 4] == 's' || w[
                w.len() - 4
            ] == 't') {
                3
            } else if ends_in(w, seq!['o', 'u']) {
                2
            } else {
                0
            }
        } else if c == 's' {
            if ends_in(w, seq!['i', 's', 'm']) {
                3
            } else {
                0
            }
        } else if c == 't' {
            if ends_in(w, seq!['a', 't', 'e']) {
                3
            } else if ends_in(w, seq!['i', 't', 'i']) {
                3
            } else {
                0
            }
        } else if c == 'u' {
            if ends_in(w, seq!['o', 'u', 's']) {
                3
            } else {
                0
            }
        } else if c == 'v' {
            if ends_in(w, seq!['i', 'v', 'e']) {
                3
            } else {
                0
            }
        } else if c == 'z' {
            if ends_in(w, seq!['i', 'z', 'e']) {
                3
            } else {
                0
            }
        } else {
            0
        }
    }
}

/// Step 4: the recognized ending is removed outright when the stem before it
/// has measure greater than one; otherwise the word stands.
pub open spec fn step4(w: Seq<char>) -> Seq<char> {
    let l = step4_match(w);
    if l > 0 && measure_prefix(w, w.len() - l) > 1 {
        w.take(w.len() - l)
    } else {
        w
    }
}

/// Step 5: a final `e` is dropped when the measure of the whole word is
/// greater than one, or equals one and the word does not end
/// consonant-vowel-consonant before the `e`; then a final `ll` loses one `l`
/// when that same measure is greater than one.
pub open spec fn step5(w: Seq<char>) -> Seq<char>
    recommends
        w.len() >= 1,
{
    let a = measure_prefix(w, w.len() as int);
    let w1 = if w.len() >= 1 && w.last() == 'e' && (a > 1 || (a == 1 && !cvc_at(
        w,
        w.len() - 2,
    ))) {
        w.take(w.len() - 1)
    } else {
        w
    };
    if w1.len() >= 1 && w1.last() == 'l' && double_cons(w1, w1.len() - 1) && a > 1 {
        w1.take(w1.len() - 1)
    } else {
        w1
    }
}

/// The character with ASCII capitals folded to small letters; every other
/// character stands.
pub open spec fn lower_char(c: char) -> char {
    if 'A' <= c && c <= 'Z' {
        ((c as u32) + 32) as char
    } else {
        c
    }
}

/// The word with each character case-folded by `lower_char`.
pub open spec fn lower(w: Seq<char>) -> Seq<char> {
    Seq::new(w.len(), |i: int| lower_char(w[i]))
}

/// The whole pipeline: the word is case-folded; words of at most two
/// characters stand; otherwise step 1 runs, and steps 1c through 5 follow in
/// order while more than one character remains after step 1.
pub open spec fn stem_spec(word: Seq<char>) -> Seq<char> {
    let w = lower(word);
    if w.len() <= 2 {
        w
    } else {
        let w1 = step1b(step1a(w));
        if w1.len() >= 2 {
            step5(step4(step3(step2(step1c(w1)))))
        } else {
            w1
        }
    }
}

proof fn lemma_step1a_len(w: Seq<char>)
    ensures
        step1a(w).len() <= w.len(),
{
}

proof fn lemma_step1b_adjust_len(st: Seq<char>)
    ensures
        step1b_adjust(st).len() <= st.len() + 1,
{
}

proof fn lemma_step1b_len(w: Seq<char>)
    ensures
        step1b(w).len() <= w.len(),
{
    if ends_in(w, seq!['e', 'e', 'd']) {
    } else if ends_in(w, seq!['e', 'd']) && has_vowel(w, w.len() - 2) {
        lemma_step1b_adjust_len(w.take(w.len() - 2));
    } else if ends_in(w, seq!['i', 'n', 'g']) && has_vowel(w, w.len() - 3) {
        lemma_step1b_adjust_len(w.take(w.len() - 3));
    }
}

proof fn lemma_step2_len(w: Seq<char>)
    ensures
        step2(w).len() <= w.len(),
{
}

proof fn lemma_step3_len(w: Seq<char>)
    ensures
        step3(w).len() <= w.len(),
{
}

proof fn lemma_step4_len(w: Seq<char>)
    ensures
        step4(w).len() <= w.len(),
{
}

proof fn lemma_step5_len(w: Seq<char>)
    ensures
        step5(w).len() <= w.len(),
{
}

/// Stemming never lengthens a word: the stem is at most as long as the word
/// it came from.
pub proof fn lemma_stem_no_longer(word: Seq<char>)
    ensures
        stem_spec(word).len() <= word.len(),
{
    let w = lower(word);
    if w.len() <= 2 {
    } else {
        lemma_step1a_len(w);
        lemma_step1b_len(step1a(w));
        let w1 = step1b(step1a(w));
        if w1.len() >= 2 {
            let w2 = step2(step1c(w1));
            let w3 = step3(w2);
            let w4 = step4(w3);
            lemma_step2_len(step1c(w1));
            lemma_step3_len(w2);
            lemma_step4_len(w3);
            lemma_step5_len(w4);
        }
    }
}

/// Stemming is not idempotent: there is a word whose stem stems further.
/// The word `indeed` stems to `inde` (step 1 takes the `d` of `eed`, step 5
/// the final `e`), and `inde` stems again to `ind` (step 5 once more).
pub proof fn lemma_stem_not_idempotent()
    ensures
        exists|w: Seq<char>| stem_spec(stem_spec(w)) != stem_spec(w),
{
    let w = seq!['i', 'n', 'd', 'e', 'e', 'd'];
    assert(lower(w) =~= w);
    assert(step1a(w) == w);
    assert(w.skip(3) =~= seq!['e', 'e', 'd']);
    assert(measure_prefix(w, 1) == 0);
    assert(measure_prefix(w, 2) == 1);
    assert(measure_prefix(w, 3) == 1);
    let w1 = seq!['i', 'n', 'd', 'e', 'e'];
    assert(step1b(w) =~= w1);
    assert(w1.skip(4)[0] == 'e');
    assert(step1c(w1) == w1);
    assert(w1.skip(1)[3] == 'e');
    assert(step2(w1) == w1);
    assert(w1.skip(0)[0] == 'i');
    assert(step3(w1) == w1);
    assert(step4(w1) == w1);
    assert(measure_prefix(w1, 1) == 0);
    assert(measure_prefix(w1, 2) == 1);
    assert(measure_prefix(w1, 3) == 1);
    assert(measure_prefix(w1, 4) == 1);
    assert(measure_prefix(w1, 5) == 1);
    let w2 = seq!['i', 'n', 'd', 'e'];
    assert(step5(w1) =~= w2);
    assert(stem_spec(w) =~= w2);
    assert(lower(w2) =~= w2);
    assert(w2.skip(1)[0] == 'n');
    assert(w2.skip(2)[0] == 'd');
    assert(step1a(w2) == w2);
    assert(step1b(w2) == w2);
    assert(w2.skip(3)[0] == 'e');
    assert(step1c(w2) == w2);
    assert(step2(w2) == w2);
    assert(step3(w2) == w2);
    assert(step4(w2) == w2);
    assert(measure_prefix(w2, 1) == 0);
    assert(measure_prefix(w2, 2) == 1);
    assert(measure_prefix(w2, 3) == 1);
    assert(measure_prefix(w2, 4) == 1);
    assert(step5(w2) =~= seq!['i', 'n', 'd']);
    assert(stem_spec(w2).len() == 3);
    assert(stem_spec(stem_spec(w)) != stem_spec(w));
}

/// A word of at most two characters is never stemmed: it comes back
/// unchanged but for case folding.
pub proof fn lemma_stem_short_word(word: Seq<char>)
    requires
        word.len() <= 2,
    ensures
        stem_spec(word) == lower(word),
{
}

} // verus!
