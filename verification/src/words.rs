//! The wordlist: an ordered sequence of base words crossed with an ordered
//! sequence of extension suffixes. An empty suffix list means a single empty
//! suffix, so the words come out unchanged.

use vstd::prelude::*;

verus! {

/// An empty suffix list stands for a single empty suffix.
pub open spec fn normalize_exts(exts: Seq<Seq<char>>) -> Seq<Seq<char>> {
    if exts.len() == 0 {
        seq![Seq::<char>::empty()]
    } else {
        exts
    }
}

/// The dotted form of a suffix given on the command line: the empty suffix
/// stays empty, any other gets a leading dot.
pub open spec fn dotted(e: Seq<char>) -> Seq<char> {
    if e.len() == 0 {
        e
    } else {
        seq!['.'] + e
    }
}

/// The ordered cross product of words and suffixes, suffix-major within
/// each word: all suffixes of word 1, then all suffixes of word 2, and so on.
pub open spec fn cross_spec(words: Seq<Seq<char>>, exts: Seq<Seq<char>>) -> Seq<Seq<char>>
    decreases words.len(),
{
    if words.len() == 0 {
        Seq::<Seq<char>>::empty()
    } else {
        exts.map_values(|e: Seq<char>| words[0] + e) + cross_spec(words.skip(1), exts)
    }
}

/// Concatenating word lists concatenates their cross products.
pub proof fn lemma_cross_append(a: Seq<Seq<char>>, b: Seq<Seq<char>>, e: Seq<Seq<char>>)
    ensures
        cross_spec(a + b, e) == cross_spec(a, e) + cross_spec(b, e),
    decreases a.len(),
{
    if a.len() == 0 {
        assert(a + b =~= b);
        assert(cross_spec(a, e) + cross_spec(b, e) =~= cross_spec(b, e));
    } else {
        lemma_cross_append(a.skip(1), b, e);
        assert((a + b).skip(1) =~= a.skip(1) + b);
        assert((a + b)[0] == a[0]);
        assert(e.map_values(|x: Seq<char>| (a + b)[0] + x) =~= e.map_values(
            |x: Seq<char>| a[0] + x,
        ));
        assert(cross_spec(a + b, e) =~= cross_spec(a, e) + cross_spec(b, e));
    }
}

/// A cross product has one entry per word/suffix pair.
pub proof fn lemma_cross_len(words: Seq<Seq<char>>, exts: Seq<Seq<char>>)
    ensures
        cross_spec(words, exts).len() == words.len() * exts.len(),
    decreases words.len(),
{
    if words.len() == 0 {
    } else {
        lemma_cross_len(words.skip(1), exts);
        assert(exts.len() + (words.len() - 1) * exts.len() == words.len() * exts.len())
            by (nonlinear_arith);
    }
}

/// Crossing with the single empty suffix yields the words unchanged:
/// an empty extension list does not expand the wordlist.
pub proof fn lemma_cross_empty_suffix(words: Seq<Seq<char>>)
    ensures
        cross_spec(words, normalize_exts(Seq::<Seq<char>>::empty())) == words,
    decreases words.len(),
{
    let e = normalize_exts(Seq::<Seq<char>>::empty());
    if words.len() == 0 {
        assert(cross_spec(words, e) =~~= words);
    } else {
        lemma_cross_empty_suffix(words.skip(1));
        assert(e.map_values(|x: Seq<char>| words[0] + x)[0] =~= words[0]);
        assert(cross_spec(words, e) =~~= words);
    }
}

fn clone_strings(v: &Vec<String>) -> (r: Vec<String>)
    ensures
        r.deep_view() == v.deep_view(),
{
    let mut r: Vec<String> = Vec::new();
    let mut i: usize = 0;
    while i < v.len()
        invariant
            i <= v@.len(),
            r@.len() == i,
            forall|k: int| 0 <= k < i ==> r@[k]@ == #[trigger] v@[k]@,
        decreases v@.len() - i,
    {
        r.push(v[i].clone());
        i += 1;
    }
    assert(r.deep_view() =~~= v.deep_view());
    r
}

/// The cross product, materialized in order.
fn cross_join(words: &Vec<String>, exts: &Vec<String>) -> (r: Vec<String>)
    ensures
        r.deep_view() == cross_spec(words.deep_view(), exts.deep_view()),
{
    let mut r: Vec<String> = Vec::new();
    let mut i: usize = 0;
    proof {
        assert(words.deep_view().take(0) =~= Seq::<Seq<char>>::empty());
        assert(r.deep_view() =~~= cross_spec(words.deep_view().take(0), exts.deep_view()));
    }
    while i < words.len()
        invariant
            i <= words@.len(),
            r.deep_view() == cross_spec(words.deep_view().take(i as int), exts.deep_view()),
        decreases words@.len() - i,
    {
        let ghost prev = r.deep_view();
        let ghost prev_len: int = r@.len() as int;
        let ghost w = words@[i as int]@;
        let mut j: usize = 0;
        while j < exts.len()
            invariant
                i < words@.len(),
                j <= exts@.len(),
                w == words@[i as int]@,
                r@.len() == prev_len + j,
                prev_len == prev.len(),
                forall|k: int| 0 <= k < prev_len ==> #[trigger] r@[k]@ == prev[k],
                forall|m: int|
                    prev_len <= m < prev_len + j ==> #[trigger] r@[m]@ == w + exts@[m
                        - prev_len]@,
            decreases exts@.len() - j,
        {
            let item = words[i].clone().concat(exts[j].as_str());
            r.push(item);
            j += 1;
        }
        proof {
            let wd = words.deep_view();
            let ed = exts.deep_view();
            assert(ed.map_values(|e: Seq<char>| w + e).len() == ed.len());
            lemma_cross_append(wd.take(i as int), seq![w], ed);
            assert(wd.take(i as int) + seq![w] =~= wd.take(i + 1));
            assert(cross_spec(seq![w].skip(1), ed) == Seq::<Seq<char>>::empty());
            assert(cross_spec(seq![w], ed) =~~= ed.map_values(|e: Seq<char>| w + e));
            assert(r.deep_view() =~~= prev + ed.map_values(|e: Seq<char>| w + e));
            assert(r.deep_view() == cross_spec(wd.take(i + 1), ed));
        }
        i += 1;
    }
    proof {
        assert(words.deep_view().take(words@.len() as int) =~= words.deep_view());
    }
    r
}

/// An ordered, restartable sequence of candidate words: base words from a
/// line-oriented source, crossed with extension suffixes.
pub struct Wordlist {
    pub words: Vec<String>,
    pub extensions: Vec<String>,
}

impl Wordlist {
    /// The candidates this wordlist produces.
    pub open spec fn candidates(self) -> Seq<Seq<char>> {
        cross_spec(self.words.deep_view(), normalize_exts(self.extensions.deep_view()))
    }

    /// A wordlist over the given base words, with no expansion.
    pub fn new(words: Vec<String>) -> (r: Wordlist)
        ensures
            r.words == words,
            r.extensions.deep_view() == Seq::<Seq<char>>::empty(),
    {
        let r = Wordlist { words, extensions: Vec::new() };
        assert(r.extensions.deep_view() =~~= Seq::<Seq<char>>::empty());
        r
    }

    /// Installs the extension suffixes: each non-empty one gains a leading
    /// dot; an empty list falls back to the single empty suffix.
    pub fn set_extensions(&mut self, extensions: Vec<String>)
        ensures
            final(self).words == old(self).words,
            final(self).extensions.deep_view() == normalize_exts(
                extensions.deep_view().map_values(|e: Seq<char>| dotted(e)),
            ),
    {
        let mut exts: Vec<String> = Vec::new();
        let mut i: usize = 0;
        while i < extensions.len()
            invariant
                i <= extensions@.len(),
                exts@.len() == i,
                forall|k: int| 0 <= k < i ==> #[trigger] exts@[k]@ == dotted(extensions@[k]@),
            decreases extensions@.len() - i,
        {
            let e = &extensions[i];
            if e.as_str().unicode_len() == 0 {
                exts.push(String::new());
            } else {
                let mut d = ".".to_owned();
                d.append(e.as_str());
                proof {
                    reveal_strlit(".");
                    assert("."@ =~= seq!['.']);
                }
                exts.push(d);
            }
            i += 1;
        }
        if exts.len() == 0 {
            exts.push(String::new());
        }
        proof {
            assert(exts.deep_view() =~~= normalize_exts(
                extensions.deep_view().map_values(|e: Seq<char>| dotted(e)),
            ));
        }
        self.extensions = exts;
    }

    /// Consumes the wordlist, crossing its words with the given suffixes
    /// verbatim (no dot is added); the stored extensions carry over.
    pub fn expand(self, extensions: Vec<String>) -> (r: Wordlist)
        ensures
            r.words.deep_view() == cross_spec(
                self.words.deep_view(),
                normalize_exts(extensions.deep_view()),
            ),
            r.extensions == self.extensions,
    {
        let words = if extensions.len() == 0 {
            proof {
                assert(extensions.deep_view() =~= Seq::<Seq<char>>::empty());
                lemma_cross_empty_suffix(self.words.deep_view());
            }
            clone_strings(&self.words)
        } else {
            cross_join(&self.words, &extensions)
        };
        Wordlist { words, extensions: self.extensions }
    }

    /// The full candidate sequence, in dispatch order. Every call derives
    /// it afresh from the same immutable fields, so repeated iterations
    /// yield identical sequences.
    pub fn iter(&self) -> (r: Vec<String>)
        ensures
            r.deep_view() == self.candidates(),
    {
        if self.extensions.len() == 0 {
            proof {
                assert(self.extensions.deep_view() =~= Seq::<Seq<char>>::empty());
                lemma_cross_empty_suffix(self.words.deep_view());
            }
            clone_strings(&self.words)
        } else {
            proof {
                assert(normalize_exts(self.extensions.deep_view()) == self.extensions.deep_view());
            }
            cross_join(&self.words, &self.extensions)
        }
    }

    /// How many candidates `iter` produces.
    pub fn len(&self) -> (r: usize)
        requires
            self.words@.len() * normalize_exts(self.extensions.deep_view()).len()
                <= usize::MAX as int,
        ensures
            r == self.candidates().len(),
    {
        proof {
            lemma_cross_len(self.words.deep_view(), normalize_exts(self.extensions.deep_view()));
        }
        let ne: usize = if self.extensions.len() == 0 {
            1
        } else {
            self.extensions.len()
        };
        self.words.len() * ne
    }
}

} // verus!
