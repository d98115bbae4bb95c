//! The executable stemming engine: a mutable character buffer with an end
//! cursor `k` and a boundary cursor `j`, worked over in place by the five
//! transformation steps. Every method is proved against the corresponding
//! function of the `model` module.

use vstd::prelude::*;
use vstd::string::StrSliceExecFns;

use crate::model::{
    cvc_at, double_cons, ends_in, has_vowel, is_cons, lower, lower_char,
    measure_prefix, replace_measured, stem_spec, step1a, step1b, step1b_adjust, step1c, step2,
    step3, step4, step4_match, step5,
};

verus! {

/// Relies on String::push: appends one character at the end of the string.
#[verifier::external_body]
fn push_char(s: &mut String, c: char)
    ensures
        final(s)@ == old(s)@.push(c),
{
    s.push(c);
}

/// The character with an ASCII capital folded to its small letter; every
/// other character is returned as it came.
fn to_lower(c: char) -> (r: char)
    ensures
        r == lower_char(c),
{
    if 'A' <= c && c <= 'Z' {
        ((c as u8) + 32) as char
    } else {
        c
    }
}

/// The engine's state during one stemming operation. The active region of
/// the buffer is `buffer[0 ..= k]`; `j` marks the length of the stem left
/// before the most recently matched suffix.
#[derive(Debug)]
pub struct PorterStemmer {
    /// Buffer holding the word being processed.
    buffer: Vec<char>,
    /// Index of the last character of the active region.
    k: usize,
    /// Length of the stem before the most recently matched suffix; valid
    /// only right after a successful match.
    j: usize,
}

impl PorterStemmer {
    /// The word the engine holds now: the active region of the buffer.
    pub closed spec fn word(self) -> Seq<char> {
        self.buffer@.take(self.k as int + 1)
    }

    /// The end cursor lies inside the buffer, so the active region is a
    /// non-empty prefix of it.
    pub closed spec fn wf(self) -> bool {
        self.k < self.buffer@.len()
    }

    /// The state `new` establishes: an empty buffer and cleared cursors.
    pub closed spec fn reset(self) -> bool {
        self.buffer@ == Seq::<char>::empty() && self.k == 0 && self.j == 0
    }

    /// Creates a stemmer with an empty buffer and cleared cursors.
    pub fn new() -> (s: PorterStemmer)
        ensures
            s.reset(),
    {
        PorterStemmer { buffer: Vec::new(), k: 0, j: 0 }
    }

    /// Whether the character at position `i` of the active region is a
    /// consonant.
    fn is_consonant(&self, i: usize) -> (r: bool)
        requires
            self.wf(),
            i <= self.k,
        ensures
            r == is_cons(self.word(), i as int),
        decreases i,
    {
        match self.buffer[i] {
            'a' | 'e' | 'i' | 'o' | 'u' => false,
            'y' => if i == 0 {
                true
            } else {
                !self.is_consonant(i - 1)
            },
            _ => true,
        }
    }

    /// Porter's measure of the stem: the number of complete vowel-consonant
    /// run pairs among the first `j` characters of the word.
    fn measure(&self) -> (m: usize)
        requires
            self.wf(),
            self.j <= self.k + 1,
        ensures
            m == measure_prefix(self.word(), self.j as int),
    {
        if self.j <= 1 {
            return 0;
        }
        let mut n: usize = 0;
        let mut i: usize = 1;
        while i < self.j
            invariant
                self.wf(),
                2 <= self.j <= self.k + 1,
                1 <= i <= self.j,
                n < i,
                n == measure_prefix(self.word(), i as int),
            decreases self.j - i,
        {
            if self.is_consonant(i) && !self.is_consonant(i - 1) {
                n = n + 1;
            }
            i = i + 1;
        }
        n
    }

    /// Whether a vowel stands among the first `j` characters of the word.
    fn vowel_in_stem(&self) -> (r: bool)
        requires
            self.wf(),
            self.j <= self.k + 1,
        ensures
            r == has_vowel(self.word(), self.j as int),
    {
        let mut i: usize = 0;
        while i < self.j
            invariant
                self.wf(),
                self.j <= self.k + 1,
                i <= self.j,
                forall|t: int| 0 <= t < i ==> is_cons(self.word(), t),
            decreases self.j - i,
        {
            if !self.is_consonant(i) {
                return true;
            }
            i = i + 1;
        }
        false
    }

    /// Whether positions `i - 1` and `i` hold a doubled consonant.
    fn double_consonant(&self, i: usize) -> (r: bool)
        requires
            self.wf(),
            i <= self.k,
        ensures
            r == double_cons(self.word(), i as int),
    {
        if i < 1 {
            return false;
        }
        if self.buffer[i] != self.buffer[i - 1] {
            return false;
        }
        self.is_consonant(i)
    }

    /// Whether positions `i - 2`, `i - 1`, `i` read consonant, vowel,
    /// consonant with the final consonant not `w`, `x` or `y`.
    fn cvc(&self, i: usize) -> (r: bool)
        requires
            self.wf(),
            i <= self.k,
        ensures
            r == cvc_at(self.word(), i as int),
    {
        if i < 2 || !self.is_consonant(i) || self.is_consonant(i - 1) || !self.is_consonant(
            i - 2,
        ) {
            return false;
        }
        match self.buffer[i] {
            'w' | 'x' | 'y' => false,
            _ => true,
        }
    }

    /// Whether the word ends with the suffix `s`; on success the boundary
    /// cursor is set to the length of the stem before the suffix. The buffer
    /// and the end cursor never change.
    fn ends_with(&mut self, s: &[char]) -> (r: bool)
        requires
            old(self).wf(),
        ensures
            final(self).buffer@ == old(self).buffer@,
            final(self).k == old(self).k,
            final(self).wf(),
            r == ends_in(old(self).word(), s@),
            r ==> final(self).j == old(self).word().len() - s@.len(),
            !r ==> final(self).j == old(self).j,
    {
        let length = s.len();
        let blen = self.buffer.len();
        proof {
            // the end cursor lies inside the buffer, so `k + 1` fits
            assert(self.k < blen);
        }
        if length > self.k + 1 {
            return false;
        }
        let start = self.k + 1 - length;
        let mut i: usize = 0;
        while i < length
            invariant
                self.wf(),
                self == old(self),
                length == s@.len(),
                length <= self.k + 1,
                start == self.k + 1 - length,
                i <= length,
                forall|t: int| 0 <= t < i ==> self.word()[start + t] == s@[t],
            decreases length - i,
        {
            if self.buffer[start + i] != s[i] {
                proof {
                    let w = self.word();
                    assert(w.skip(w.len() - s@.len())[i as int] != s@[i as int]);
                }
                return false;
            }
            i = i + 1;
        }
        proof {
            let w = self.word();
            assert(w.skip(w.len() - s@.len()) =~= s@);
        }
        self.j = start;
        true
    }

    /// Writes `s` over the region after the boundary cursor and places the
    /// end cursor at its last character, shrinking or keeping the active
    /// region; the stem before the boundary stands.
    fn set_to(&mut self, s: &[char])
        requires
            old(self).wf(),
            old(self).j <= old(self).k + 1,
            old(self).j + s@.len() <= old(self).buffer@.len(),
            old(self).j + s@.len() >= 1,
        ensures
            final(self).wf(),
            final(self).k + 1 == old(self).j + s@.len(),
            final(self).j == old(self).j,
            final(self).buffer@.len() == old(self).buffer@.len(),
            final(self).word() == old(self).word().take(old(self).j as int) + s@,
    {
        let length = s.len();
        let blen = self.buffer.len();
        let mut i: usize = 0;
        while i < length
            invariant
                length == s@.len(),
                blen == self.buffer@.len(),
                self.j == old(self).j,
                self.k == old(self).k,
                self.j + length <= self.buffer@.len(),
                self.buffer@.len() == old(self).buffer@.len(),
                i <= length,
                forall|t: int| 0 <= t < self.j ==> self.buffer@[t] == old(self).buffer@[t],
                forall|t: int| 0 <= t < i ==> self.buffer@[self.j + t] == s@[t],
            decreases length - i,
        {
            let idx = self.j + i;
            self.buffer[idx] = s[i];
            i = i + 1;
        }
        self.k = self.j + length - 1;
        proof {
            assert(self.word() =~= old(self).word().take(old(self).j as int) + s@);
        }
    }

    /// The replacement that steps 2 and 3 share: `s` replaces the matched
    /// suffix only when the stem before the boundary has positive measure.
    fn replace_suffix_if_stem_measured(&mut self, s: &[char])
        requires
            old(self).wf(),
            old(self).j <= old(self).k,
            old(self).j + s@.len() <= old(self).k + 1,
        ensures
            final(self).wf(),
            final(self).j == old(self).j,
            final(self).buffer@.len() == old(self).buffer@.len(),
            final(self).word() == replace_measured(old(self).word(), old(self).j as int, s@),
    {
        if self.measure() > 0 {
            self.set_to(s);
        }
    }

    /// Step 1 of the pipeline: plural endings, then past-participle and
    /// progressive endings with their stem adjustments.
    #[verifier::rlimit(60)]
    fn step1ab(&mut self)
        requires
            old(self).wf(),
            old(self).k >= 1,
        ensures
            final(self).wf(),
            final(self).buffer@.len() == old(self).buffer@.len(),
            final(self).word() == step1b(step1a(old(self).word())),
    {
        let s_sses: &[char] = &['s', 's', 'e', 's'];
        let s_ies: &[char] = &['i', 'e', 's'];
        let s_i: &[char] = &['i'];
        let s_eed: &[char] = &['e', 'e', 'd'];
        let s_ed: &[char] = &['e', 'd'];
        let s_ing: &[char] = &['i', 'n', 'g'];
        let s_at: &[char] = &['a', 't'];
        let s_ate: &[char] = &['a', 't', 'e'];
        let s_bl: &[char] = &['b', 'l'];
        let s_ble: &[char] = &['b', 'l', 'e'];
        let s_iz: &[char] = &['i', 'z'];
        let s_ize: &[char] = &['i', 'z', 'e'];
        let s_e: &[char] = &['e'];
        proof {
            assert(s_sses@ =~= seq!['s', 's', 'e', 's']);
            assert(s_ies@ =~= seq!['i', 'e', 's']);
            assert(s_i@ =~= seq!['i']);
            assert(s_eed@ =~= seq!['e', 'e', 'd']);
            assert(s_ed@ =~= seq!['e', 'd']);
            assert(s_ing@ =~= seq!['i', 'n', 'g']);
            assert(s_at@ =~= seq!['a', 't']);
            assert(s_ate@ =~= seq!['a', 't', 'e']);
            assert(s_bl@ =~= seq!['b', 'l']);
            assert(s_ble@ =~= seq!['b', 'l', 'e']);
            assert(s_iz@ =~= seq!['i', 'z']);
            assert(s_ize@ =~= seq!['i', 'z', 'e']);
            assert(s_e@ =~= seq!['e']);
        }
        let ghost w0 = self.word();
        let blen = self.buffer.len();
        proof {
            // the end cursor lies inside the buffer, so cursor sums fit
            assert(self.k < blen);
        }
        if self.buffer[self.k] == 's' {
            if self.ends_with(s_sses) {
                self.k = self.k - 2;
                proof {
                    assert(self.word() =~= w0.take(w0.len() - 2));
                }
            } else if self.ends_with(s_ies) {
                self.set_to(s_i);
                proof {
                    assert(self.word() =~= w0.take(w0.len() - 3).push('i'));
                }
            } else if self.buffer[self.k - 1] != 's' {
                self.k = self.k - 1;
                proof {
                    assert(self.word() =~= w0.take(w0.len() - 1));
                }
            }
        }
        proof {
            assert(self.word() == step1a(w0));
        }
        let ghost wa = self.word();
        if self.ends_with(s_eed) {
            if self.measure() > 0 {
                self.k = self.k - 1;
                proof {
                    assert(self.word() =~= wa.take(wa.len() - 1));
                }
            }
        } else if (self.ends_with(s_ed) || self.ends_with(s_ing)) && self.vowel_in_stem() {
            proof {
                assert(self.j >= 1);
            }
            self.k = self.j - 1;
            let ghost st = self.word();
            proof {
                assert(st =~= wa.take(self.j as int));
            }
            if self.ends_with(s_at) {
                self.set_to(s_ate);
                proof {
                    assert(self.word() =~= st.push('e'));
                }
            } else if self.ends_with(s_bl) {
                self.set_to(s_ble);
                proof {
                    assert(self.word() =~= st.push('e'));
                }
            } else if self.ends_with(s_iz) {
                self.set_to(s_ize);
                proof {
                    assert(self.word() =~= st.push('e'));
                }
            } else if self.double_consonant(self.k) {
                self.k = self.k - 1;
                proof {
                    assert(self.word() =~= st.take(st.len() - 1));
                }
                let ch = self.buffer[self.k];
                if ch == 'l' || ch == 's' || ch == 'z' {
                    self.k = self.k + 1;
                    proof {
                        assert(self.word() =~= st);
                    }
                }
            } else if self.measure() == 1 && self.cvc(self.k) {
                self.set_to(s_e);
                proof {
                    assert(st.take(st.len() as int) =~= st);
                    assert(self.word() =~= st.push('e'));
                }
            }
            proof {
                assert(self.word() == step1b_adjust(st));
            }
        }
    }

    /// Step 1c: a final `y` becomes `i` when a vowel stands before it.
    fn step1c(&mut self)
        requires
            old(self).wf(),
        ensures
            final(self).wf(),
            final(self).buffer@.len() == old(self).buffer@.len(),
            final(self).word() == step1c(old(self).word()),
    {
        let s_y: &[char] = &['y'];
        proof {
            assert(s_y@ =~= seq!['y']);
        }
        if self.ends_with(s_y) && self.vowel_in_stem() {
            let ki = self.k;
            self.buffer[ki] = 'i';
            proof {
                assert(self.word() =~= old(self).word().update(old(self).word().len() - 1, 'i'));
            }
        }
    }

    /// Step 2: compound suffixes, dispatched on the second-to-last
    /// character; the first match is replaced when the stem before it has
    /// positive measure.
    #[verifier::rlimit(100)]
    fn step2(&mut self)
        requires
            old(self).wf(),
        ensures
            final(self).wf(),
            final(self).buffer@.len() == old(self).buffer@.len(),
            final(self).word() == step2(old(self).word()),
    {
        if self.k < 1 {
            return ;
        }
        match self.buffer[self.k - 1] {
            'a' => {
                let s1: &[char] = &['a', 't', 'i', 'o', 'n', 'a', 'l'];
                let r1: &[char] = &['a', 't', 'e'];
                let s2: &[char] = &['t', 'i', 'o', 'n', 'a', 'l'];
                let r2: &[char] = &['t', 'i', 'o', 'n'];
                proof {
                    assert(s1@ =~= seq!['a', 't', 'i', 'o', 'n', 'a', 'l']);
                    assert(r1@ =~= seq!['a', 't', 'e']);
                    assert(s2@ =~= seq!['t', 'i', 'o', 'n', 'a', 'l']);
                    assert(r2@ =~= seq!['t', 'i', 'o', 'n']);
                }
                if self.ends_with(s1) {
                    self.replace_suffix_if_stem_measured(r1);
                } else if self.ends_with(s2) {
                    self.replace_suffix_if_stem_measured(r2);
                }
            },
            'c' => {
                let s1: &[char] = &['e', 'n', 'c', 'i'];
                let r1: &[char] = &['e', 'n', 'c', 'e'];
                let s2: &[char] = &['a', 'n', 'c', 'i'];
                let r2: &[char] = &['a', 'n', 'c', 'e'];
                proof {
                    assert(s1@ =~= seq!['e', 'n', 'c', 'i']);
                    assert(r1@ =~= seq!['e', 'n', 'c', 'e']);
                    assert(s2@ =~= seq!['a', 'n', 'c', 'i']);
                    assert(r2@ =~= seq!['a', 'n', 'c', 'e']);
                }
                if self.ends_with(s1) {
                    self.replace_suffix_if_stem_measured(r1);
                } else if self.ends_with(s2) {
                    self.replace_suffix_if_stem_measured(r2);
                }
            },
            'e' => {
                let s1: &[char] = &['i', 'z', 'e', 'r'];
                let r1: &[char] = &['i', 'z', 'e'];
                proof {
                    assert(s1@ =~= seq!['i', 'z', 'e', 'r']);
                    assert(r1@ =~= seq!['i', 'z', 'e']);
                }
                if self.ends_with(s1) {
                    self.replace_suffix_if_stem_measured(r1);
                }
            },
            'l' => {
                let s1: &[char] = &['b', 'l', 'i'];
                let r1: &[char] = &['b', 'l', 'e'];
                let s2: &[char] = &['a', 'l', 'l', 'i'];
                let r2: &[char] = &['a', 'l'];
                let s3: &[char] = &['e', 'n', 't', 'l', 'i'];
                let r3: &[char] = &['e', 'n', 't'];
                let s4: &[char] = &['e', 'l', 'i'];
                let r4: &[char] = &['e'];
                let s5: &[char] = &['o', 'u', 's', 'l', 'i'];
                let r5: &[char] = &['o', 'u', 's'];
                proof {
                    assert(s1@ =~= seq!['b', 'l', 'i']);
                    assert(r1@ =~= seq!['b', 'l', 'e']);
                    assert(s2@ =~= seq!['a', 'l', 'l', 'i']);
                    assert(r2@ =~= seq!['a', 'l']);
                    assert(s3@ =~= seq!['e', 'n', 't', 'l', 'i']);
                    assert(r3@ =~= seq!['e', 'n', 't']);
                    assert(s4@ =~= seq!['e', 'l', 'i']);
                    assert(r4@ =~= seq!['e']);
                    assert(s5@ =~= seq!['o', 'u', 's', 'l', 'i']);
                    assert(r5@ =~= seq!['o', 'u', 's']);
                }
                if self.ends_with(s1) {
                    self.replace_suffix_if_stem_measured(r1);
                } else if self.ends_with(s2) {
                    self.replace_suffix_if_stem_measured(r2);
                } else if self.ends_with(s3) {
                    self.replace_suffix_if_stem_measured(r3);
                } else if self.ends_with(s4) {
                    self.replace_suffix_if_stem_measured(r4);
                } else if self.ends_with(s5) {
                    self.replace_suffix_if_stem_measured(r5);
                }
            },
            'o' => {
                let s1: &[char] = &['i', 'z', 'a', 't', 'i', 'o', 'n'];
                let r1: &[char] = &['i', 'z', 'e'];
                let s2: &[char] = &['a', 't', 'i', 'o', 'n'];
                let r2: &[char] = &['a', 't', 'e'];
                let s3: &[char] = &['a', 't', 'o', 'r'];
                proof {
                    assert(s1@ =~= seq!['i', 'z', 'a', 't', 'i', 'o', 'n']);
                    assert(r1@ =~= seq!['i', 'z', 'e']);
                    assert(s2@ =~= seq!['a', 't', 'i', 'o', 'n']);
                    assert(r2@ =~= seq!['a', 't', 'e']);
                    assert(s3@ =~= seq!['a', 't', 'o', 'r']);
                }
                if self.ends_with(s1) {
                    self.replace_suffix_if_stem_measured(r1);
                } else if self.ends_with(s2) {
                    self.replace_suffix_if_stem_measured(r2);
                } else if self.ends_with(s3) {
                    self.replace_suffix_if_stem_measured(r2);
                }
            },
            's' => {
                let s1: &[char] = &['a', 'l', 'i', 's', 'm'];
                let r1: &[char] = &['a', 'l'];
                let s2: &[char] = &['i', 'v', 'e', 'n', 'e', 's', 's'];
                let r2: &[char] = &['i', 'v', 'e'];
                let s3: &[char] = &['f', 'u', 'l', 'n', 'e', 's', 's'];
                let r3: &[char] = &['f', 'u', 'l'];
                let s4: &[char] = &['o', 'u', 's', 'n', 'e', 's', 's'];
                let r4: &[char] = &['o', 'u', 's'];
                proof {
                    assert(s1@ =~= seq!['a', 'l', 'i', 's', 'm']);
                    assert(r1@ =~= seq!['a', 'l']);
                    assert(s2@ =~= seq!['i', 'v', 'e', 'n', 'e', 's', 's']);
                    assert(r2@ =~= seq!['i', 'v', 'e']);
                    assert(s3@ =~= seq!['f', 'u', 'l', 'n', 'e', 's', 's']);
                    assert(r3@ =~= seq!['f', 'u', 'l']);
                    assert(s4@ =~= seq!['o', 'u', 's', 'n', 'e', 's', 's']);
                    assert(r4@ =~= seq!['o', 'u', 's']);
                }
                if self.ends_with(s1) {
                    self.replace_suffix_if_stem_measured(r1);
                } else if self.ends_with(s2) {
                    self.replace_suffix_if_stem_measured(r2);
                } else if self.ends_with(s3) {
                    self.replace_suffix_if_stem_measured(r3);
                } else if self.ends_with(s4) {
                    self.replace_suffix_if_stem_measured(r4);
                }
            },
            't' => {
                let s1: &[char] = &['a', 'l', 'i', 't', 'i'];
                let r1: &[char] = &['a', 'l'];
                let s2: &[char] = &['i', 'v', 'i', 't', 'i'];
                let r2: &[char] = &['i', 'v', 'e'];
                let s3: &[char] = &['b', 'i', 'l', 'i', 't', 'i'];
                let r3: &[char] = &['b', 'l', 'e'];
                proof {
                    assert(s1@ =~= seq!['a', 'l', 'i', 't', 'i']);
                    assert(r1@ =~= seq!['a', 'l']);
                    assert(s2@ =~= seq!['i', 'v', 'i', 't', 'i']);
                    assert(r2@ =~= seq!['i', 'v', 'e']);
                    assert(s3@ =~= seq!['b', 'i', 'l', 'i', 't', 'i']);
                    assert(r3@ =~= seq!['b', 'l', 'e']);
                }
                if self.ends_with(s1) {
                    self.replace_suffix_if_stem_measured(r1);
                } else if self.ends_with(s2) {
                    self.replace_suffix_if_stem_measured(r2);
                } else if self.ends_with(s3) {
                    self.replace_suffix_if_stem_measured(r3);
                }
            },
            'g' => {
                let s1: &[char] = &['l', 'o', 'g', 'i'];
                let r1: &[char] = &['l', 'o', 'g'];
                proof {
                    assert(s1@ =~= seq!['l', 'o', 'g', 'i']);
                    assert(r1@ =~= seq!['l', 'o', 'g']);
                }
                if self.ends_with(s1) {
                    self.replace_suffix_if_stem_measured(r1);
                }
            },
            _ => {},
        }
    }

    /// Step 3: adjective and noun suffixes, dispatched on the last
    /// character; the first match is replaced when the stem before it has
    /// positive measure.
    #[verifier::rlimit(60)]
    fn step3(&mut self)
        requires
            old(self).wf(),
        ensures
            final(self).wf(),
            final(self).buffer@.len() == old(self).buffer@.len(),
            final(self).word() == step3(old(self).word()),
    {
        match self.buffer[self.k] {
            'e' => {
                let s1: &[char] = &['i', 'c', 'a', 't', 'e'];
                let r1: &[char] = &['i', 'c'];
                let s2: &[char] = &['a', 't', 'i', 'v', 'e'];
                let r2: &[char] = &[];
                let s3: &[char] = &['a', 'l', 'i', 'z', 'e'];
                let r3: &[char] = &['a', 'l'];
                proof {
                    assert(s1@ =~= seq!['i', 'c', 'a', 't', 'e']);
                    assert(r1@ =~= seq!['i', 'c']);
                    assert(s2@ =~= seq!['a', 't', 'i', 'v', 'e']);
                    assert(r2@ =~= Seq::<char>::empty());
                    assert(s3@ =~= seq!['a', 'l', 'i', 'z', 'e']);
                    assert(r3@ =~= seq!['a', 'l']);
                }
                if self.ends_with(s1) {
                    self.replace_suffix_if_stem_measured(r1);
                } else if self.ends_with(s2) {
                    self.replace_suffix_if_stem_measured(r2);
                } else if self.ends_with(s3) {
                    self.replace_suffix_if_stem_measured(r3);
                }
            },
            'i' => {
                let s1: &[char] = &['i', 'c', 'i', 't', 'i'];
                let r1: &[char] = &['i', 'c'];
                proof {
                    assert(s1@ =~= seq!['i', 'c', 'i', 't', 'i']);
                    assert(r1@ =~= seq!['i', 'c']);
                }
                if self.ends_with(s1) {
                    self.replace_suffix_if_stem_measured(r1);
                }
            },
            'l' => {
                let s1: &[char] = &['i', 'c', 'a', 'l'];
                let r1: &[char] = &['i', 'c'];
                let s2: &[char] = &['f', 'u', 'l'];
                let r2: &[char] = &[];
                proof {
                    assert(s1@ =~= seq!['i', 'c', 'a', 'l']);
                    assert(r1@ =~= seq!['i', 'c']);
                    assert(s2@ =~= seq!['f', 'u', 'l']);
                    assert(r2@ =~= Seq::<char>::empty());
                }
                if self.ends_with(s1) {
                    self.replace_suffix_if_stem_measured(r1);
                } else if self.ends_with(s2) {
                    self.replace_suffix_if_stem_measured(r2);
                }
            },
            's' => {
                let s1: &[char] = &['n', 'e', 's', 's'];
                let r1: &[char] = &[];
                proof {
                    assert(s1@ =~= seq!['n', 'e', 's', 's']);
                    assert(r1@ =~= Seq::<char>::empty());
                }
                if self.ends_with(s1) {
                    self.replace_suffix_if_stem_measured(r1);
                }
            },
            _ => {},
        }
    }

    /// Step 4: the recognized ending is removed outright when the stem
    /// before it has measure greater than one. The `ion` ending counts only
    /// when `s` or `t` stands before it.
    #[verifier::rlimit(100)]
    fn step4(&mut self)
        requires
            old(self).wf(),
        ensures
            final(self).wf(),
            final(self).buffer@.len() == old(self).buffer@.len(),
            final(self).word() == step4(old(self).word()),
    {
        if self.k < 1 {
            return ;
        }
        let ghost w = self.word();
        let matched: bool = match self.buffer[self.k - 1] {
            'a' => {
                let s1: &[char] = &['a', 'l'];
                proof {
                    assert(s1@ =~= seq!['a', 'l']);
                }
                self.ends_with(s1)
            },
            'c' => {
                let s1: &[char] = &['a', 'n', 'c', 'e'];
                let s2: &[char] = &['e', 'n', 'c', 'e'];
                proof {
                    assert(s1@ =~= seq!['a', 'n', 'c', 'e']);
                    assert(s2@ =~= seq!['e', 'n', 'c', 'e']);
                }
                self.ends_with(s1) || self.ends_with(s2)
            },
            'e' => {
                let s1: &[char] = &['e', 'r'];
                proof {
                    assert(s1@ =~= seq!['e', 'r']);
                }
                self.ends_with(s1)
            },
            'i' => {
                let s1: &[char] = &['i', 'c'];
                proof {
                    assert(s1@ =~= seq!['i', 'c']);
                }
                self.ends_with(s1)
            },
            'l' => {
                let s1: &[char] = &['a', 'b', 'l', 'e'];
                let s2: &[char] = &['i', 'b', 'l', 'e'];
                proof {
                    assert(s1@ =~= seq!['a', 'b', 'l', 'e']);
                    assert(s2@ =~= seq!['i', 'b', 'l', 'e']);
                }
                self.ends_with(s1) || self.ends_with(s2)
            },
            'n' => {
                let s1: &[char] = &['a', 'n', 't'];
                let s2: &[char] = &['e', 'm', 'e', 'n', 't'];
                let s3: &[char] = &['m', 'e', 'n', 't'];
                let s4: &[char] = &['e', 'n', 't'];
                proof {
                    assert(s1@ =~= seq!['a', 'n', 't']);
                    assert(s2@ =~= seq!['e', 'm', 'e', 'n', 't']);
                    assert(s3@ =~= seq!['m', 'e', 'n', 't']);
                    assert(s4@ =~= seq!['e', 'n', 't']);
                }
                self.ends_with(s1) || self.ends_with(s2) || self.ends_with(s3)
                    || self.ends_with(s4)
            },
            'o' => {
                let s1: &[char] = &['i', 'o', 'n'];
                let s2: &[char] = &['o', 'u'];
                proof {
                    assert(s1@ =~= seq!['i', 'o', 'n']);
                    assert(s2@ =~= seq!['o', 'u']);
                }
                (self.ends_with(s1) && self.j >= 1 && (self.buffer[self.j - 1] == 's'
                    || self.buffer[self.j - 1] == 't')) || self.ends_with(s2)
            },
            's' => {
                let s1: &[char] = &['i', 's', 'm'];
                proof {
                    assert(s1@ =~= seq!['i', 's', 'm']);
                }
                self.ends_with(s1)
            },
            't' => {
                let s1: &[char] = &['a', 't', 'e'];
                let s2: &[char] = &['i', 't', 'i'];
                proof {
                    assert(s1@ =~= seq!['a', 't', 'e']);
                    assert(s2@ =~= seq!['i', 't', 'i']);
                }
                self.ends_with(s1) || self.ends_with(s2)
            },
            'u' => {
                let s1: &[char] = &['o', 'u', 's'];
                proof {
                    assert(s1@ =~= seq!['o', 'u', 's']);
                }
                self.ends_with(s1)
            },
            'v' => {
                let s1: &[char] = &['i', 'v', 'e'];
                proof {
                    assert(s1@ =~= seq!['i', 'v', 'e']);
                }
                self.ends_with(s1)
            },
            'z' => {
                let s1: &[char] = &['i', 'z', 'e'];
                proof {
                    assert(s1@ =~= seq!['i', 'z', 'e']);
                }
                self.ends_with(s1)
            },
            _ => false,
        };
        proof {
            if matched {
                assert(step4_match(w) > 0 && self.j == w.len() - step4_match(w));
            } else {
                assert(step4_match(w) == 0);
            }
        }
        if matched && self.measure() > 1 {
            self.k = self.j - 1;
            proof {
                assert(self.word() =~= w.take(self.j as int));
            }
        }
    }

    /// Step 5: drop a final `e` unless the measure forbids it, then undouble
    /// a final `ll` when the measure of the word on entry is greater than
    /// one.
    fn step5(&mut self)
        requires
            old(self).wf(),
        ensures
            final(self).wf(),
            final(self).buffer@.len() == old(self).buffer@.len(),
            final(self).word() == step5(old(self).word()),
    {
        let blen = self.buffer.len();
        proof {
            // the end cursor lies inside the buffer, so `k + 1` fits
            assert(self.k < blen);
        }
        self.j = self.k + 1;
        let a = self.measure();
        if self.buffer[self.k] == 'e' {
            if a > 1 || (a == 1 && !self.cvc(self.k - 1)) {
                self.k = self.k - 1;
                proof {
                    assert(self.word() =~= old(self).word().take(old(self).word().len() - 1));
                }
            }
        }
        if self.buffer[self.k] == 'l' && self.double_consonant(self.k) && a > 1 {
            let ghost w1 = self.word();
            self.k = self.k - 1;
            proof {
                assert(self.word() =~= w1.take(w1.len() - 1));
            }
        }
    }

    /// The active region copied out as a fresh string.
    fn word_string(&self) -> (r: String)
        requires
            self.wf(),
        ensures
            r@ == self.word(),
    {
        let mut r = String::new();
        let blen = self.buffer.len();
        let mut i: usize = 0;
        while i <= self.k
            invariant
                self.wf(),
                blen == self.buffer@.len(),
                i <= self.k + 1,
                r@ == self.word().take(i as int),
            decreases self.k + 1 - i,
        {
            push_char(&mut r, self.buffer[i]);
            proof {
                assert(self.word().take(i as int).push(self.word()[i as int]) =~= self.word().take(
                    i as int + 1,
                ));
            }
            i = i + 1;
        }
        proof {
            assert(self.word().take(self.k as int + 1) =~= self.word());
        }
        r
    }

    /// Reduces `word` to its stem: the word is case-folded, loaded into the
    /// buffer, sent through the five transformation steps, and the remaining
    /// active region is returned. Words of at most two characters are
    /// returned unchanged but for case.
    pub fn stem(&mut self, word: &str) -> (r: String)
        ensures
            r@ == stem_spec(word@),
    {
        let n = word.unicode_len();
        if n == 0 {
            proof {
                assert(lower(word@) =~= Seq::<char>::empty());
            }
            return String::new();
        }
        self.buffer = Vec::new();
        let mut i: usize = 0;
        while i < n
            invariant
                n == word@.len(),
                i <= n,
                self.buffer@.len() == i as int,
                forall|t: int| 0 <= t < i ==> self.buffer@[t] == lower_char(word@[t]),
            decreases n - i,
        {
            let c = word.get_char(i);
            let lc = to_lower(c);
            self.buffer.push(lc);
            i = i + 1;
        }
        proof {
            assert(self.buffer@ =~= lower(word@));
        }
        self.k = n - 1;
        self.j = 0;
        proof {
            assert(self.word() =~= lower(word@));
        }
        if self.k <= 1 {
            return self.word_string();
        }
        self.step1ab();
        if self.k > 0 {
            self.step1c();
            self.step2();
            self.step3();
            self.step4();
            self.step5();
        }
        self.word_string()
    }
}

} // verus!
