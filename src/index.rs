//! The incrementally maintained TF-IDF index over the names of one entity class.
//!
//! Weights are kept exactly: an entry records the counts and the corpus statistics it was
//! weighted with, so the real-valued weight `count / doc_len * ln(total_docs / (doc_freq + 1))`
//! (raised to `idf_power`) is determined by integers alone, including any staleness that
//! incremental maintenance leaves behind.

use vstd::prelude::*;
use vstd::string::StringExecFns;
use crate::text::{tokenize, tokens_of};

verus! {

/// How often a vocabulary word occurs in one token sequence.
#[derive(Clone, Copy, Debug, PartialEq, Eq, Structural)]
pub struct TermCount {
    pub word_id: usize,
    pub count: usize,
}

/// One entry of an entity's sparse TF-IDF vector. It stands for the weight
/// `count / doc_len * ln(total_docs / (doc_freq + 1)) ^ idf_power`.
#[derive(Clone, Copy, Debug, PartialEq, Eq, Structural)]
pub struct TermWeight {
    pub word_id: usize,
    pub count: usize,
    pub doc_len: usize,
    pub total_docs: usize,
    pub doc_freq: usize,
    pub idf_power: usize,
}

/// First position of `t` in `v`, or -1.
pub open spec fn index_of(v: Seq<Seq<char>>, t: Seq<char>) -> int
    decreases v.len(),
{
    if v.len() == 0 {
        -1
    } else {
        let k = index_of(v.drop_last(), t);
        if k >= 0 {
            k
        } else if v.last() == t {
            v.len() - 1
        } else {
            -1
        }
    }
}

/// First position of an entry for `id` in `e`, or -1.
pub open spec fn entry_pos(e: Seq<TermCount>, id: int) -> int
    decreases e.len(),
{
    if e.len() == 0 {
        -1
    } else {
        let k = entry_pos(e.drop_last(), id);
        if k >= 0 {
            k
        } else if e.last().word_id == id {
            e.len() - 1
        } else {
            -1
        }
    }
}

/// The counts of the vocabulary words in `ts`, one entry per distinct word, in order of
/// first occurrence; tokens outside the vocabulary are not counted.
pub open spec fn term_counts(ts: Seq<Seq<char>>, v: Seq<Seq<char>>) -> Seq<TermCount>
    decreases ts.len(),
{
    if ts.len() == 0 {
        Seq::empty()
    } else {
        let e = term_counts(ts.drop_last(), v);
        let id = index_of(v, ts.last());
        if id < 0 {
            e
        } else {
            let p = entry_pos(e, id);
            if p >= 0 {
                e.update(p, TermCount { word_id: e[p].word_id, count: (e[p].count + 1) as usize })
            } else {
                e.push(TermCount { word_id: id as usize, count: 1 })
            }
        }
    }
}

/// `v` extended by the tokens of `ts` that it lacks, in order of first occurrence.
pub open spec fn extend_vocab(v: Seq<Seq<char>>, ts: Seq<Seq<char>>) -> Seq<Seq<char>>
    decreases ts.len(),
{
    if ts.len() == 0 {
        v
    } else {
        let w = extend_vocab(v, ts.drop_last());
        if w.contains(ts.last()) {
            w
        } else {
            w.push(ts.last())
        }
    }
}

/// The vocabulary of a list of names: their tokens in order of first occurrence.
pub open spec fn vocab_of(names: Seq<Seq<char>>) -> Seq<Seq<char>>
    decreases names.len(),
{
    if names.len() == 0 {
        Seq::empty()
    } else {
        extend_vocab(vocab_of(names.drop_last()), tokens_of(names.last()))
    }
}

/// Number of names whose tokens contain `t`.
pub open spec fn doc_freq(names: Seq<Seq<char>>, t: Seq<char>) -> nat
    decreases names.len(),
{
    if names.len() == 0 {
        0
    } else {
        doc_freq(names.drop_last(), t) + if tokens_of(names.last()).contains(t) {
            1nat
        } else {
            0nat
        }
    }
}

/// The weights of a sequence of counts, taken with the given corpus statistics.
pub open spec fn weights_of(counts: Seq<TermCount>, doc_len: nat, n: usize, df: Seq<usize>) -> Seq<TermWeight> {
    counts.map(
        |k: int, c: TermCount|
            TermWeight {
                word_id: c.word_id,
                count: c.count,
                doc_len: doc_len as usize,
                total_docs: n,
                doc_freq: df[c.word_id as int],
                idf_power: 1,
            },
    )
}

/// The TF-IDF vector of a name against a vocabulary and corpus statistics.
pub open spec fn vector_of(name: Seq<char>, v: Seq<Seq<char>>, n: usize, df: Seq<usize>) -> Seq<TermWeight> {
    weights_of(term_counts(tokens_of(name), v), tokens_of(name).len(), n, df)
}

proof fn lemma_index_of(v: Seq<Seq<char>>, t: Seq<char>)
    ensures
        -1 <= index_of(v, t) < v.len(),
        index_of(v, t) >= 0 ==> v[index_of(v, t)] == t,
        index_of(v, t) >= 0 ==> forall|j: int| 0 <= j < index_of(v, t) ==> v[j] != t,
        index_of(v, t) < 0 ==> forall|j: int| 0 <= j < v.len() ==> v[j] != t,
    decreases v.len(),
{
    if v.len() > 0 {
        lemma_index_of(v.drop_last(), t);
        assert(forall|j: int| 0 <= j < v.len() - 1 ==> #[trigger] v[j] == v.drop_last()[j]);
    }
}

/// `index_of` finds a name exactly when it is present.
pub proof fn lemma_index_of_contains(v: Seq<Seq<char>>, t: Seq<char>)
    ensures
        index_of(v, t) >= 0 <==> v.contains(t),
        index_of(v, t) >= 0 ==> index_of(v, t) < v.len() && v[index_of(v, t)] == t,
{
    lemma_index_of(v, t);
}

proof fn lemma_entry_pos(e: Seq<TermCount>, id: int)
    ensures
        -1 <= entry_pos(e, id) < e.len(),
        entry_pos(e, id) >= 0 ==> e[entry_pos(e, id)].word_id == id,
        entry_pos(e, id) >= 0 ==> forall|j: int| 0 <= j < entry_pos(e, id) ==> e[j].word_id != id,
        entry_pos(e, id) < 0 ==> forall|j: int| 0 <= j < e.len() ==> e[j].word_id != id,
    decreases e.len(),
{
    if e.len() > 0 {
        lemma_entry_pos(e.drop_last(), id);
        assert(forall|j: int| 0 <= j < e.len() - 1 ==> #[trigger] e[j] == e.drop_last()[j]);
    }
}

proof fn lemma_first_index(v: Seq<Seq<char>>, t: Seq<char>, k: int)
    requires
        -1 <= k < v.len(),
        k >= 0 ==> v[k] == t,
        forall|j: int| 0 <= j < v.len() && (k < 0 || j < k) ==> v[j] != t,
    ensures
        index_of(v, t) == k,
{
    lemma_index_of(v, t);
}

proof fn lemma_first_entry(e: Seq<TermCount>, id: int, k: int)
    requires
        -1 <= k < e.len(),
        k >= 0 ==> e[k].word_id == id,
        forall|j: int| 0 <= j < e.len() && (k < 0 || j < k) ==> e[j].word_id != id,
    ensures
        entry_pos(e, id) == k,
{
    lemma_entry_pos(e, id);
}

proof fn lemma_term_counts_bounds(ts: Seq<Seq<char>>, v: Seq<Seq<char>>)
    requires
        ts.len() <= usize::MAX,
    ensures
        forall|k: int|
            0 <= k < term_counts(ts, v).len() ==> {
                &&& (#[trigger] term_counts(ts, v)[k]).word_id < v.len()
                &&& 1 <= term_counts(ts, v)[k].count <= ts.len()
            },
        term_counts(ts, v).len() <= ts.len(),
    decreases ts.len(),
{
    if ts.len() > 0 {
        let e = term_counts(ts.drop_last(), v);
        lemma_term_counts_bounds(ts.drop_last(), v);
        lemma_index_of(v, ts.last());
        lemma_entry_pos(e, index_of(v, ts.last()));
        let r = term_counts(ts, v);
        assert forall|k: int| 0 <= k < r.len() implies (#[trigger] r[k]).word_id < v.len() && 1
            <= r[k].count <= ts.len() by {
            let id = index_of(v, ts.last());
            if k < e.len() {
                assert(e[k].word_id < v.len() && 1 <= e[k].count <= ts.len() - 1);
            }
            if id >= 0 {
                let p = entry_pos(e, id);
                if p >= 0 {
                    assert(r == e.update(p, TermCount { word_id: e[p].word_id, count: (e[p].count + 1) as usize }));
                    assert(e[p].count <= ts.len() - 1);
                } else {
                    assert(r == e.push(TermCount { word_id: id as usize, count: 1 }));
                }
            }
        }
    }
}

/// Position of `t` in `v`: the first one, if any.
pub fn position_of(v: &Vec<String>, t: &String) -> (r: Option<usize>)
    ensures
        match r {
            Some(k) => k as int == index_of(v.deep_view(), t@),
            None => index_of(v.deep_view(), t@) < 0,
        },
{
    let mut k: usize = 0;
    while k < v.len()
        invariant
            k <= v.len(),
            forall|j: int| 0 <= j < k ==> v.deep_view()[j] != t@,
        decreases v.len() - k,
    {
        if v[k] == *t {
            proof {
                lemma_first_index(v.deep_view(), t@, k as int);
            }
            return Some(k);
        }
        k = k + 1;
    }
    proof {
        lemma_first_index(v.deep_view(), t@, -1);
    }
    None
}

/// Whether `t` occurs in `v`.
pub fn contains_name(v: &Vec<String>, t: &String) -> (r: bool)
    ensures
        r == v.deep_view().contains(t@),
{
    let p = position_of(v, t);
    proof {
        lemma_index_of(v.deep_view(), t@);
    }
    match p {
        Some(k) => {
            assert(v.deep_view()[k as int] == t@);
            true
        },
        None => false,
    }
}

fn entry_position(e: &Vec<TermCount>, id: usize) -> (r: Option<usize>)
    ensures
        match r {
            Some(k) => k as int == entry_pos(e@, id as int),
            None => entry_pos(e@, id as int) < 0,
        },
{
    let mut k: usize = 0;
    while k < e.len()
        invariant
            k <= e.len(),
            forall|j: int| 0 <= j < k ==> e@[j].word_id != id,
        decreases e.len() - k,
    {
        if e[k].word_id == id {
            proof {
                lemma_first_entry(e@, id as int, k as int);
            }
            return Some(k);
        }
        k = k + 1;
    }
    proof {
        lemma_first_entry(e@, id as int, -1);
    }
    None
}

/// Term counts of a token sequence against a vocabulary (the term frequency of a word is its
/// count over the sequence length).
pub fn calculate_tf(tokens: &Vec<String>, vocab: &Vec<String>) -> (r: Vec<TermCount>)
    ensures
        r@ == term_counts(tokens.deep_view(), vocab.deep_view()),
{
    let mut e: Vec<TermCount> = Vec::new();
    let mut i: usize = 0;
    while i < tokens.len()
        invariant
            i <= tokens.len(),
            e@ == term_counts(tokens.deep_view().take(i as int), vocab.deep_view()),
        decreases tokens.len() - i,
    {
        let ghost ts = tokens.deep_view().take(i + 1);
        proof {
            assert(ts.drop_last() =~= tokens.deep_view().take(i as int));
            lemma_term_counts_bounds(tokens.deep_view().take(i as int), vocab.deep_view());
        }
        match position_of(vocab, &tokens[i]) {
            Some(id) => {
                match entry_position(&e, id) {
                    Some(p) => {
                        proof {
                            lemma_entry_pos(e@, id as int);
                        }
                        let c = e[p];
                        e.set(p, TermCount { word_id: c.word_id, count: c.count + 1 });
                    },
                    None => {
                        e.push(TermCount { word_id: id, count: 1 });
                    },
                }
            },
            None => {},
        }
        i = i + 1;
    }
    assert(tokens.deep_view().take(tokens.len() as int) =~= tokens.deep_view());
    e
}

/// The TF-IDF index of one entity class.
pub struct TfIdfIndex {
    /// Token of each word id; ids are positions, assigned in order of first occurrence.
    pub vocabulary: Vec<String>,
    /// For each word id, the number of indexed names whose tokens contain the word.
    pub document_frequencies: Vec<usize>,
    /// One sparse vector per indexed name, aligned with `entity_names`.
    pub tfidf_vectors: Vec<Vec<TermWeight>>,
    pub entity_names: Vec<String>,
    pub total_docs: usize,
}

/// The mathematical content of an index.
pub struct IndexModel {
    pub vocabulary: Seq<Seq<char>>,
    pub document_frequencies: Seq<usize>,
    pub vectors: Seq<Seq<TermWeight>>,
    pub names: Seq<Seq<char>>,
    pub total_docs: usize,
}

impl View for TfIdfIndex {
    type V = IndexModel;

    open spec fn view(&self) -> IndexModel {
        IndexModel {
            vocabulary: self.vocabulary.deep_view(),
            document_frequencies: self.document_frequencies@,
            vectors: self.tfidf_vectors@.map(|i: int, x: Vec<TermWeight>| x@),
            names: self.entity_names.deep_view(),
            total_docs: self.total_docs,
        }
    }
}

impl IndexModel {
    /// The index's invariant: aligned lists, `total_docs` counting the names, every token of
    /// every name in the vocabulary, and each document frequency counting the names that
    /// contain its word.
    pub open spec fn wf(self) -> bool {
        &&& self.document_frequencies.len() == self.vocabulary.len()
        &&& self.vectors.len() == self.names.len()
        &&& self.total_docs == self.names.len()
        &&& forall|w: int|
            0 <= w < self.vocabulary.len() ==> #[trigger] self.document_frequencies[w] == doc_freq(
                self.names,
                self.vocabulary[w],
            )
        &&& forall|i: int, k: int|
            0 <= i < self.names.len() && 0 <= k < tokens_of(self.names[i]).len()
                ==> self.vocabulary.contains(#[trigger] tokens_of(self.names[i])[k])
        &&& forall|i: int, k: int|
            0 <= i < self.vectors.len() && 0 <= k < self.vectors[i].len()
                ==> (#[trigger] self.vectors[i][k]).word_id < self.vocabulary.len()
    }

    /// Names are unique.
    pub open spec fn names_unique(self) -> bool {
        self.names.no_duplicates()
    }
}

impl TfIdfIndex {
    pub open spec fn wf(&self) -> bool {
        self@.wf()
    }
}

/// The index built from scratch over `names`.
pub open spec fn built(names: Seq<Seq<char>>) -> IndexModel {
    let v = vocab_of(names);
    let n = names.len() as usize;
    let df = Seq::new(v.len(), |w: int| doc_freq(names, v[w]) as usize);
    IndexModel {
        vocabulary: v,
        document_frequencies: df,
        vectors: Seq::new(names.len(), |i: int| vector_of(names[i], v, n, df)),
        names,
        total_docs: n,
    }
}

proof fn lemma_extend_vocab(v: Seq<Seq<char>>, ts: Seq<Seq<char>>)
    ensures
        extend_vocab(v, ts).len() >= v.len(),
        forall|j: int| 0 <= j < v.len() ==> #[trigger] extend_vocab(v, ts)[j] == v[j],
        forall|k: int| 0 <= k < ts.len() ==> extend_vocab(v, ts).contains(#[trigger] ts[k]),
        forall|j: int|
            0 <= j < extend_vocab(v, ts).len() ==> v.contains(#[trigger] extend_vocab(v, ts)[j])
                || ts.contains(extend_vocab(v, ts)[j]),
        v.no_duplicates() ==> extend_vocab(v, ts).no_duplicates(),
        forall|j: int|
            v.len() <= j < extend_vocab(v, ts).len() ==> !v.contains(#[trigger] extend_vocab(v, ts)[j]),
    decreases ts.len(),
{
    if ts.len() > 0 {
        let p = ts.drop_last();
        let w = extend_vocab(v, p);
        lemma_extend_vocab(v, p);
        let r = extend_vocab(v, ts);
        assert forall|j: int| v.len() <= j < r.len() implies !v.contains(#[trigger] r[j]) by {
            if j < w.len() {
                assert(r[j] == w[j]);
            } else if v.contains(r[j]) {
                let q = choose|q: int| 0 <= q < v.len() && v[q] == r[j];
                assert(w[q] == r[j]);
            }
        }
        assert forall|k: int| 0 <= k < ts.len() implies r.contains(#[trigger] ts[k]) by {
            if k < ts.len() - 1 {
                assert(p[k] == ts[k]);
                let j = choose|j: int| 0 <= j < w.len() && w[j] == p[k];
                if !w.contains(ts.last()) {
                    assert(r[j] == ts[k]);
                }
            } else {
                if w.contains(ts.last()) {
                    let j = choose|j: int| 0 <= j < w.len() && w[j] == ts.last();
                    assert(r[j] == ts[k]);
                } else {
                    assert(r[w.len() as int] == ts[k]);
                }
            }
        }
        assert forall|j: int| 0 <= j < r.len() implies v.contains(#[trigger] r[j]) || ts.contains(r[j]) by {
            if j < w.len() {
                assert(r[j] == w[j]);
                if !v.contains(w[j]) {
                    let k = choose|k: int| 0 <= k < p.len() && p[k] == w[j];
                    assert(ts[k] == w[j]);
                }
            } else {
                assert(r[j] == ts[ts.len() - 1]);
            }
        }
    }
}

proof fn lemma_vocab_of(names: Seq<Seq<char>>)
    ensures
        forall|i: int, k: int|
            0 <= i < names.len() && 0 <= k < tokens_of(names[i]).len()
                ==> vocab_of(names).contains(#[trigger] tokens_of(names[i])[k]),
        vocab_of(names).no_duplicates(),
    decreases names.len(),
{
    if names.len() > 0 {
        let p = names.drop_last();
        lemma_vocab_of(p);
        lemma_extend_vocab(vocab_of(p), tokens_of(names.last()));
        let r = vocab_of(names);
        assert forall|i: int, k: int|
            0 <= i < names.len() && 0 <= k < tokens_of(names[i]).len()
                implies r.contains(#[trigger] tokens_of(names[i])[k]) by {
            if i < names.len() - 1 {
                assert(p[i] == names[i]);
                let t = tokens_of(p[i])[k];
                let j = choose|j: int| 0 <= j < vocab_of(p).len() && vocab_of(p)[j] == t;
                assert(r[j] == t);
            }
        }
    }
}

proof fn lemma_doc_freq_bound(names: Seq<Seq<char>>, t: Seq<char>)
    ensures
        doc_freq(names, t) <= names.len(),
    decreases names.len(),
{
    if names.len() > 0 {
        lemma_doc_freq_bound(names.drop_last(), t);
    }
}

/// The weights of term counts under the given statistics.
fn weigh(counts: &Vec<TermCount>, doc_len: usize, n: usize, df: &Vec<usize>) -> (r: Vec<TermWeight>)
    requires
        forall|k: int| 0 <= k < counts.len() ==> (#[trigger] counts@[k]).word_id < df.len(),
    ensures
        r@ == weights_of(counts@, doc_len as nat, n, df@),
{
    let mut r: Vec<TermWeight> = Vec::new();
    let mut k: usize = 0;
    while k < counts.len()
        invariant
            k <= counts.len(),
            forall|j: int| 0 <= j < counts.len() ==> (#[trigger] counts@[j]).word_id < df.len(),
            r@ == weights_of(counts@.take(k as int), doc_len as nat, n, df@),
        decreases counts.len() - k,
    {
        let c = counts[k];
        r.push(
            TermWeight {
                word_id: c.word_id,
                count: c.count,
                doc_len,
                total_docs: n,
                doc_freq: df[c.word_id],
                idf_power: 1,
            },
        );
        k = k + 1;
        assert(r@ =~= weights_of(counts@.take(k as int), doc_len as nat, n, df@));
    }
    assert(counts@.take(counts.len() as int) =~= counts@);
    r
}

/// The vector of one token sequence against the index's current statistics.
pub(crate) fn vector_for(tokens: &Vec<String>, vocab: &Vec<String>, n: usize, df: &Vec<usize>) -> (r: Vec<TermWeight>)
    requires
        df.len() == vocab.len(),
    ensures
        r@ == weights_of(term_counts(tokens.deep_view(), vocab.deep_view()), tokens.len() as nat, n, df@),
{
    let counts = calculate_tf(tokens, vocab);
    proof {
        assert(tokens.deep_view().len() == tokens.len());
        lemma_term_counts_bounds(tokens.deep_view(), vocab.deep_view());
    }
    weigh(&counts, tokens.len(), n, df)
}

/// Tokenizes every name.
fn tokenize_all(names: &Vec<String>) -> (r: Vec<Vec<String>>)
    ensures
        r.len() == names.len(),
        forall|i: int| 0 <= i < names.len() ==> (#[trigger] r@[i]).deep_view() == tokens_of(names@[i]@),
{
    let mut r: Vec<Vec<String>> = Vec::new();
    let mut i: usize = 0;
    while i < names.len()
        invariant
            i <= names.len(),
            r.len() == i,
            forall|j: int| 0 <= j < i ==> (#[trigger] r@[j]).deep_view() == tokens_of(names@[j]@),
        decreases names.len() - i,
    {
        r.push(tokenize(names[i].as_str()));
        i = i + 1;
    }
    r
}

/// Builds the index of `names` from scratch.
pub fn build_tfidf_index(names: Vec<String>) -> (r: TfIdfIndex)
    ensures
        r@ == built(names.deep_view()),
        r.wf(),
        names.deep_view().no_duplicates() ==> r@.names_unique(),
{
    let ghost nv = names.deep_view();
    if names.len() == 0 {
        let r = TfIdfIndex {
            vocabulary: Vec::new(),
            document_frequencies: Vec::new(),
            tfidf_vectors: Vec::new(),
            entity_names: names,
            total_docs: 0,
        };
        assert(r@.vocabulary =~= built(nv).vocabulary);
        assert(r@.document_frequencies =~= built(nv).document_frequencies);
        assert(r@.vectors =~= built(nv).vectors);
        assert(r@.names =~= built(nv).names);
        return r;
    }
    let docs = tokenize_all(&names);
    let total_docs = names.len();

    // Vocabulary, in order of first occurrence.
    let mut vocabulary: Vec<String> = Vec::new();
    let mut i: usize = 0;
    while i < names.len()
        invariant
            i <= names.len(),
            docs.len() == names.len(),
            nv == names.deep_view(),
            forall|j: int| 0 <= j < names.len() ==> (#[trigger] docs@[j]).deep_view() == tokens_of(nv[j]),
            vocabulary.deep_view() == vocab_of(nv.take(i as int)),
        decreases names.len() - i,
    {
        let ts = &docs[i];
        let ghost base = vocab_of(nv.take(i as int));
        proof {
            assert(nv.take(i + 1).drop_last() =~= nv.take(i as int));
            assert(nv.take(i + 1).last() == nv[i as int]);
        }
        let mut k: usize = 0;
        while k < ts.len()
            invariant
                k <= ts.len(),
                vocabulary.deep_view() == extend_vocab(base, ts.deep_view().take(k as int)),
            decreases ts.len() - k,
        {
            proof {
                assert(ts.deep_view().take(k + 1).drop_last() =~= ts.deep_view().take(k as int));
            }
            if !contains_name(&vocabulary, &ts[k]) {
                vocabulary.push(ts[k].clone());
                assert(vocabulary.deep_view() =~= extend_vocab(base, ts.deep_view().take(k + 1)));
            }
            k = k + 1;
        }
        assert(ts.deep_view().take(ts.len() as int) =~= ts.deep_view());
        i = i + 1;
    }
    assert(nv.take(names.len() as int) =~= nv);
    let ghost v = vocabulary.deep_view();

    // Document frequencies.
    let mut document_frequencies: Vec<usize> = Vec::new();
    let mut w: usize = 0;
    while w < vocabulary.len()
        invariant
            w <= vocabulary.len(),
            document_frequencies.len() == w,
            forall|x: int| 0 <= x < w ==> document_frequencies@[x] == 0,
        decreases vocabulary.len() - w,
    {
        document_frequencies.push(0);
        w = w + 1;
    }
    i = 0;
    while i < names.len()
        invariant
            i <= names.len(),
            docs.len() == names.len(),
            nv == names.deep_view(),
            v == vocabulary.deep_view(),
            forall|j: int| 0 <= j < names.len() ==> (#[trigger] docs@[j]).deep_view() == tokens_of(nv[j]),
            document_frequencies.len() == vocabulary.len(),
            forall|x: int|
                0 <= x < vocabulary.len() ==> #[trigger] document_frequencies@[x] == doc_freq(
                    nv.take(i as int),
                    v[x],
                ),
        decreases names.len() - i,
    {
        proof {
            assert(nv.take(i + 1).drop_last() =~= nv.take(i as int));
            assert(nv.take(i + 1).last() == nv[i as int]);
        }
        let mut x: usize = 0;
        while x < vocabulary.len()
            invariant
                i < names.len(),
                nv == names.deep_view(),
                x <= vocabulary.len(),
                docs.len() == names.len(),
                v == vocabulary.deep_view(),
                docs@[i as int].deep_view() == tokens_of(nv[i as int]),
                nv.take(i + 1).drop_last() == nv.take(i as int),
                nv.take(i + 1).last() == nv[i as int],
                document_frequencies.len() == vocabulary.len(),
                forall|y: int|
                    0 <= y < x ==> #[trigger] document_frequencies@[y] == doc_freq(nv.take(i + 1), v[y]),
                forall|y: int|
                    x <= y < vocabulary.len() ==> #[trigger] document_frequencies@[y] == doc_freq(
                        nv.take(i as int),
                        v[y],
                    ),
            decreases vocabulary.len() - x,
        {
            proof {
                lemma_doc_freq_bound(nv.take(i as int), v[x as int]);
                assert(nv.take(i as int).len() == i);
                assert(vocabulary@[x as int]@ == v[x as int]);
            }
            let has = contains_name(&docs[i], &vocabulary[x]);
            if has {
                let d = document_frequencies[x];
                document_frequencies.set(x, d + 1);
            }
            assert(document_frequencies@[x as int] == doc_freq(nv.take(i + 1), v[x as int]));
            x = x + 1;
        }
        i = i + 1;
    }

    // Vectors.
    let mut tfidf_vectors: Vec<Vec<TermWeight>> = Vec::new();
    i = 0;
    while i < names.len()
        invariant
            i <= names.len(),
            docs.len() == names.len(),
            nv == names.deep_view(),
            v == vocabulary.deep_view(),
            total_docs == names.len(),
            forall|j: int| 0 <= j < names.len() ==> (#[trigger] docs@[j]).deep_view() == tokens_of(nv[j]),
            document_frequencies.len() == vocabulary.len(),
            tfidf_vectors.len() == i,
            forall|j: int|
                0 <= j < i ==> (#[trigger] tfidf_vectors@[j])@ == vector_of(
                    nv[j],
                    v,
                    total_docs,
                    document_frequencies@,
                ),
        decreases names.len() - i,
    {
        let vec = vector_for(&docs[i], &vocabulary, total_docs, &document_frequencies);
        tfidf_vectors.push(vec);
        i = i + 1;
    }
    let r = TfIdfIndex {
        vocabulary,
        document_frequencies,
        tfidf_vectors,
        entity_names: names,
        total_docs,
    };
    proof {
        let b = built(nv);
        assert(nv.take(nv.len() as int) =~= nv);
        assert forall|j: int| 0 <= j < nv.len() implies #[trigger] b.vectors[j].len() == term_counts(
            tokens_of(nv[j]),
            v,
        ).len() && forall|k: int|
            0 <= k < b.vectors[j].len() ==> (#[trigger] b.vectors[j][k]).word_id < v.len() by {
            assert(tokens_of(nv[j]).len() == docs@[j].len());
            lemma_term_counts_bounds(tokens_of(nv[j]), v);
        }
        assert(r@.document_frequencies =~= b.document_frequencies);
        assert(r@.vectors =~= b.vectors);
        lemma_vocab_of(nv);
    }
    r
}

/// Raises the IDF power of the entries whose word id is at least `lo`.
pub open spec fn rescaled(x: Seq<TermWeight>, lo: int) -> Seq<TermWeight> {
    x.map(
        |k: int, e: TermWeight|
            if e.word_id >= lo {
                TermWeight { idf_power: (e.idf_power + 1) as usize, ..e }
            } else {
                e
            },
    )
}

/// Frequency of word `w` of `v` after a name with tokens `ts` joins: the earlier count (none for
/// a new word), plus one when the name contains the word.
pub open spec fn added_freq(df: Seq<usize>, ts: Seq<Seq<char>>, v: Seq<Seq<char>>, w: int) -> usize {
    ((if w < df.len() {
        df[w] as int
    } else {
        0
    }) + (if ts.contains(v[w]) {
        1int
    } else {
        0
    })) as usize
}

/// The index after adding `name`: unchanged when the name is present; otherwise its new
/// tokens join the vocabulary, the frequencies and `total_docs` count it, its vector is
/// weighted with the updated statistics, and the entries of the new words are rescaled by
/// their IDF in every vector.
pub open spec fn added(m: IndexModel, name: Seq<char>) -> IndexModel {
    if m.names.contains(name) {
        m
    } else {
        let ts = tokens_of(name);
        let v = extend_vocab(m.vocabulary, ts);
        let n = (m.total_docs + 1) as usize;
        let df = Seq::new(v.len(), |w: int| added_freq(m.document_frequencies, ts, v, w));
        let lo = m.vocabulary.len() as int;
        IndexModel {
            vocabulary: v,
            document_frequencies: df,
            vectors: m.vectors.push(vector_of(name, v, n, df)).map(
                |i: int, x: Seq<TermWeight>| rescaled(x, lo),
            ),
            names: m.names.push(name),
            total_docs: n,
        }
    }
}

proof fn lemma_doc_freq_absent(names: Seq<Seq<char>>, t: Seq<char>)
    requires
        forall|i: int| 0 <= i < names.len() ==> !(#[trigger] tokens_of(names[i])).contains(t),
    ensures
        doc_freq(names, t) == 0,
    decreases names.len(),
{
    if names.len() > 0 {
        let p = names.drop_last();
        assert forall|i: int| 0 <= i < p.len() implies !(#[trigger] tokens_of(p[i])).contains(t) by {
            assert(p[i] == names[i]);
        }
        lemma_doc_freq_absent(p, t);
        assert(!tokens_of(names[names.len() - 1]).contains(t));
    }
}

fn rescale_vector(x: &Vec<TermWeight>, lo: usize) -> (r: Vec<TermWeight>)
    requires
        forall|k: int| 0 <= k < x.len() && (#[trigger] x@[k]).word_id >= lo ==> x@[k].idf_power < usize::MAX,
    ensures
        r@ == rescaled(x@, lo as int),
{
    let mut r: Vec<TermWeight> = Vec::new();
    let mut k: usize = 0;
    while k < x.len()
        invariant
            k <= x.len(),
            forall|j: int| 0 <= j < x.len() && (#[trigger] x@[j]).word_id >= lo ==> x@[j].idf_power < usize::MAX,
            r@ == rescaled(x@.take(k as int), lo as int),
        decreases x.len() - k,
    {
        let e = x[k];
        if e.word_id >= lo {
            r.push(TermWeight { idf_power: e.idf_power + 1, ..e });
        } else {
            r.push(e);
        }
        k = k + 1;
        assert(r@ =~= rescaled(x@.take(k as int), lo as int));
    }
    assert(x@.take(x.len() as int) =~= x@);
    r
}

impl TfIdfIndex {
    /// Rescales, in every vector, the entries of the words whose id is at least
    /// `first_new_id` by their IDF.
    fn recalculate_idf_for_new_words(&mut self, first_new_id: usize)
        requires
            forall|i: int, k: int|
                0 <= i < old(self).tfidf_vectors.len() && 0 <= k < old(self).tfidf_vectors@[i].len()
                    && (#[trigger] old(self).tfidf_vectors@[i]@[k]).word_id >= first_new_id
                    ==> old(self).tfidf_vectors@[i]@[k].idf_power < usize::MAX,
        ensures
            final(self)@ == (IndexModel {
                vectors: old(self)@.vectors.map(|i: int, x: Seq<TermWeight>| rescaled(x, first_new_id as int)),
                ..old(self)@
            }),
    {
        let ghost start = self@;
        let mut i: usize = 0;
        while i < self.tfidf_vectors.len()
            invariant
                i <= self.tfidf_vectors.len(),
                self.tfidf_vectors.len() == old(self).tfidf_vectors.len(),
                self.vocabulary == old(self).vocabulary,
                self.document_frequencies == old(self).document_frequencies,
                self.entity_names == old(self).entity_names,
                self.total_docs == old(self).total_docs,
                start == old(self)@,
                forall|j: int| 0 <= j < i ==> (#[trigger] self.tfidf_vectors@[j])@ == rescaled(
                    old(self).tfidf_vectors@[j]@,
                    first_new_id as int,
                ),
                forall|j: int| i <= j < self.tfidf_vectors.len() ==> #[trigger] self.tfidf_vectors@[j]
                    == old(self).tfidf_vectors@[j],
                forall|j: int, k: int|
                    0 <= j < old(self).tfidf_vectors.len() && 0 <= k < old(self).tfidf_vectors@[j].len()
                        && (#[trigger] old(self).tfidf_vectors@[j]@[k]).word_id >= first_new_id
                        ==> old(self).tfidf_vectors@[j]@[k].idf_power < usize::MAX,
            decreases self.tfidf_vectors.len() - i,
        {
            let x = rescale_vector(&self.tfidf_vectors[i], first_new_id);
            self.tfidf_vectors.set(i, x);
            i = i + 1;
        }
        assert(self@.vectors =~= start.vectors.map(|i: int, x: Seq<TermWeight>| rescaled(x, first_new_id as int)));
    }

    /// Adds one entity. Nothing changes when the name is already indexed.
    pub fn add_entity(&mut self, entity_name: String)
        requires
            old(self).wf(),
            old(self).entity_names.len() < usize::MAX,
        ensures
            final(self)@ == added(old(self)@, entity_name@),
            final(self).wf(),
            old(self)@.names_unique() ==> final(self)@.names_unique(),
    {
        let ghost m = self@;
        if contains_name(&self.entity_names, &entity_name) {
            return;
        }
        let tokens = tokenize(entity_name.as_str());
        let ghost ts = tokens.deep_view();
        let first_new = self.vocabulary.len();
        let mut k: usize = 0;
        while k < tokens.len()
            invariant
                k <= tokens.len(),
                ts == tokens.deep_view(),
                ts == tokens_of(entity_name@),
                m == old(self)@,
                m.wf(),
                first_new == m.vocabulary.len(),
                self.vocabulary.deep_view() == extend_vocab(m.vocabulary, ts.take(k as int)),
                self.document_frequencies.len() == self.vocabulary.len(),
                forall|w: int| 0 <= w < first_new ==> #[trigger] self.document_frequencies@[w] == m.document_frequencies[w],
                forall|w: int| first_new <= w < self.document_frequencies.len() ==> #[trigger] self.document_frequencies@[w] == 0,
                self.entity_names == old(self).entity_names,
                self.tfidf_vectors == old(self).tfidf_vectors,
                self.total_docs == old(self).total_docs,
            decreases tokens.len() - k,
        {
            proof {
                assert(ts.take(k + 1).drop_last() =~= ts.take(k as int));
                lemma_extend_vocab(m.vocabulary, ts.take(k as int));
            }
            if !contains_name(&self.vocabulary, &tokens[k]) {
                self.vocabulary.push(tokens[k].clone());
                self.document_frequencies.push(0);
                assert(self.vocabulary.deep_view() =~= extend_vocab(m.vocabulary, ts.take(k + 1)));
            }
            k = k + 1;
        }
        assert(ts.take(tokens.len() as int) =~= ts);
        let ghost v = self.vocabulary.deep_view();
        let ghost a = added(m, entity_name@);
        proof {
            lemma_extend_vocab(m.vocabulary, ts);
            assert(a.vocabulary == v);
        }
        let mut w: usize = 0;
        while w < self.vocabulary.len()
            invariant
                w <= self.vocabulary.len(),
                ts == tokens.deep_view(),
                m == old(self)@,
                m.wf(),
                m.names.len() < usize::MAX,
                first_new == m.vocabulary.len(),
                first_new <= v.len(),
                v == self.vocabulary.deep_view(),
                v == extend_vocab(m.vocabulary, ts),
                forall|j: int| 0 <= j < first_new ==> #[trigger] v[j] == m.vocabulary[j],
                self.document_frequencies.len() == self.vocabulary.len(),
                a == added(m, entity_name@),
                ts == tokens_of(entity_name@),
                a.vocabulary == v,
                a.document_frequencies.len() == v.len(),
                forall|x: int| 0 <= x < w ==> #[trigger] self.document_frequencies@[x] == a.document_frequencies[x],
                forall|x: int| w <= x < first_new ==> #[trigger] self.document_frequencies@[x] == m.document_frequencies[x],
                forall|x: int| first_new <= x < self.document_frequencies.len() && w <= x ==> #[trigger] self.document_frequencies@[x] == 0,
                !m.names.contains(entity_name@),
                self.entity_names == old(self).entity_names,
                self.tfidf_vectors == old(self).tfidf_vectors,
                self.total_docs == old(self).total_docs,
            decreases self.vocabulary.len() - w,
        {
            proof {
                if w < first_new {
                    lemma_doc_freq_bound(m.names, m.vocabulary[w as int]);
                }
                assert(self.vocabulary@[w as int]@ == v[w as int]);
            }
            if contains_name(&tokens, &self.vocabulary[w]) {
                let d = self.document_frequencies[w];
                self.document_frequencies.set(w, d + 1);
            }
            assert(a.document_frequencies[w as int] == added_freq(m.document_frequencies, ts, v, w as int));
            w = w + 1;
        }
        self.total_docs = self.total_docs + 1;
        let vec = vector_for(&tokens, &self.vocabulary, self.total_docs, &self.document_frequencies);
        self.tfidf_vectors.push(vec);
        self.entity_names.push(entity_name);
        proof {
            assert(self@.document_frequencies =~= added(m, entity_name@).document_frequencies);
            assert(tokens.deep_view().len() == tokens.len());
            lemma_term_counts_bounds(ts, v);
            assert forall|i: int, k: int|
                0 <= i < self.tfidf_vectors.len() && 0 <= k < self.tfidf_vectors@[i].len()
                    && (#[trigger] self.tfidf_vectors@[i]@[k]).word_id >= first_new
                    implies self.tfidf_vectors@[i]@[k].idf_power < usize::MAX by {
                if i < m.vectors.len() {
                    assert(self.tfidf_vectors@[i] == old(self).tfidf_vectors@[i]);
                    assert(m.vectors[i][k].word_id < m.vocabulary.len());
                } else {
                    assert(self.tfidf_vectors@[i]@ == vec@);
                }
            }
        }
        self.recalculate_idf_for_new_words(first_new);
        proof {
            let a = added(m, entity_name@);
            let f = self@;
            assert(f.names =~= a.names);
            assert(f.vectors =~= a.vectors);
            lemma_wf_added(m, entity_name@);
        }
    }
}

proof fn lemma_wf_added(m: IndexModel, name: Seq<char>)
    requires
        m.wf(),
        !m.names.contains(name),
        tokens_of(name).len() <= usize::MAX,
        m.names.len() < usize::MAX,
    ensures
        added(m, name).wf(),
        m.names_unique() ==> added(m, name).names_unique(),
{
    let a = added(m, name);
    let ts = tokens_of(name);
    let v = a.vocabulary;
    lemma_extend_vocab(m.vocabulary, ts);
    assert(a.names.drop_last() =~= m.names);
    assert forall|w: int| 0 <= w < v.len() implies #[trigger] a.document_frequencies[w] == doc_freq(a.names, v[w]) by {
        assert(a.names.last() == name);
        assert(a.document_frequencies[w] == added_freq(m.document_frequencies, ts, v, w));
        assert(doc_freq(a.names, v[w]) == doc_freq(m.names, v[w]) + if ts.contains(v[w]) {
            1nat
        } else {
            0nat
        });
        if w < m.vocabulary.len() {
            lemma_doc_freq_bound(m.names, v[w]);
            assert(v[w] == m.vocabulary[w]);
            assert(m.document_frequencies[w] == doc_freq(m.names, m.vocabulary[w]));
        } else {
            assert forall|i: int| 0 <= i < m.names.len() implies !(#[trigger] tokens_of(m.names[i])).contains(v[w]) by {
                if tokens_of(m.names[i]).contains(v[w]) {
                    let k = choose|k: int| 0 <= k < tokens_of(m.names[i]).len() && tokens_of(m.names[i])[k] == v[w];
                    assert(m.vocabulary.contains(tokens_of(m.names[i])[k]));
                    assert(!m.vocabulary.contains(v[w]));
                }
            }
            lemma_doc_freq_absent(m.names, v[w]);
        }
    }
    assert forall|i: int, k: int|
        0 <= i < a.names.len() && 0 <= k < tokens_of(a.names[i]).len()
            implies v.contains(#[trigger] tokens_of(a.names[i])[k]) by {
        if i < m.names.len() {
            assert(a.names[i] == m.names[i]);
            let t = tokens_of(m.names[i])[k];
            assert(m.vocabulary.contains(t));
            let j = choose|j: int| 0 <= j < m.vocabulary.len() && m.vocabulary[j] == t;
            assert(v[j] == t);
        } else {
            assert(a.names[i] == name);
        }
    }
    lemma_term_counts_bounds(ts, v);
    assert forall|i: int, k: int|
        0 <= i < a.vectors.len() && 0 <= k < a.vectors[i].len()
            implies (#[trigger] a.vectors[i][k]).word_id < v.len() by {
        if i < m.names.len() {
            assert(m.vectors[i][k].word_id < m.vocabulary.len());
        }
    }
    if m.names_unique() {
        assert forall|i: int, j: int| 0 <= i < a.names.len() && 0 <= j < a.names.len() && i != j implies a.names[i] != a.names[j] by {
            if i == m.names.len() {
                assert(m.names[j] == a.names[j]);
            } else if j == m.names.len() {
                assert(m.names[i] == a.names[i]);
            } else {
                assert(m.names[i] == a.names[i] && m.names[j] == a.names[j]);
            }
        }
    }
}

/// Frequency of word `w` of `v` after a name with tokens `ts` leaves.
pub open spec fn removed_freq(df: Seq<usize>, ts: Seq<Seq<char>>, v: Seq<Seq<char>>, w: int) -> usize {
    if ts.contains(v[w]) {
        (df[w] - 1) as usize
    } else {
        df[w]
    }
}

/// The index after removing `name`: unchanged when it is absent; otherwise the frequencies
/// no longer count it, its name and vector leave, `total_docs` drops by one, and every
/// remaining vector is weighted anew with the updated statistics. The vocabulary stays.
pub open spec fn removed(m: IndexModel, name: Seq<char>) -> IndexModel {
    let p = index_of(m.names, name);
    if p < 0 {
        m
    } else {
        let ts = tokens_of(name);
        let df = Seq::new(
            m.document_frequencies.len(),
            |w: int| removed_freq(m.document_frequencies, ts, m.vocabulary, w),
        );
        let names = m.names.remove(p);
        let n = (m.total_docs - 1) as usize;
        IndexModel {
            vocabulary: m.vocabulary,
            document_frequencies: df,
            vectors: Seq::new(names.len(), |i: int| vector_of(names[i], m.vocabulary, n, df)),
            names,
            total_docs: n,
        }
    }
}

proof fn lemma_term_counts_ids(ts: Seq<Seq<char>>, v: Seq<Seq<char>>)
    ensures
        forall|k: int|
            0 <= k < term_counts(ts, v).len() ==> (#[trigger] term_counts(ts, v)[k]).word_id < v.len(),
    decreases ts.len(),
{
    if ts.len() > 0 {
        let e = term_counts(ts.drop_last(), v);
        lemma_term_counts_ids(ts.drop_last(), v);
        lemma_index_of(v, ts.last());
        lemma_entry_pos(e, index_of(v, ts.last()));
        let r = term_counts(ts, v);
        assert forall|k: int| 0 <= k < r.len() implies (#[trigger] r[k]).word_id < v.len() by {
            let id = index_of(v, ts.last());
            if k < e.len() {
                assert(e[k].word_id < v.len());
            }
            if id >= 0 {
                let p = entry_pos(e, id);
                if p >= 0 {
                    assert(r == e.update(p, TermCount { word_id: e[p].word_id, count: (e[p].count + 1) as usize }));
                } else {
                    assert(r == e.push(TermCount { word_id: id as usize, count: 1 }));
                }
            }
        }
    }
}

proof fn lemma_doc_freq_remove(s: Seq<Seq<char>>, p: int, t: Seq<char>)
    requires
        0 <= p < s.len(),
    ensures
        doc_freq(s.remove(p), t) + (if tokens_of(s[p]).contains(t) {
            1int
        } else {
            0
        }) == doc_freq(s, t),
    decreases s.len(),
{
    if p == s.len() - 1 {
        assert(s.remove(p) =~= s.drop_last());
    } else {
        lemma_doc_freq_remove(s.drop_last(), p, t);
        assert(s.remove(p).drop_last() =~= s.drop_last().remove(p));
        assert(s.remove(p).last() == s.last());
        assert(s.drop_last()[p] == s[p]);
    }
}

proof fn lemma_wf_removed(m: IndexModel, name: Seq<char>)
    requires
        m.wf(),
        index_of(m.names, name) >= 0,
    ensures
        removed(m, name).wf(),
        m.names_unique() ==> removed(m, name).names_unique(),
{
    let p = index_of(m.names, name);
    lemma_index_of(m.names, name);
    let r = removed(m, name);
    let ts = tokens_of(name);
    let v = m.vocabulary;
    assert forall|w: int| 0 <= w < v.len() implies #[trigger] r.document_frequencies[w] == doc_freq(r.names, v[w]) by {
        lemma_doc_freq_remove(m.names, p, v[w]);
        assert(r.document_frequencies[w] == removed_freq(m.document_frequencies, ts, v, w));
    }
    assert forall|i: int, k: int|
        0 <= i < r.names.len() && 0 <= k < tokens_of(r.names[i]).len()
            implies v.contains(#[trigger] tokens_of(r.names[i])[k]) by {
        if i < p {
            assert(r.names[i] == m.names[i]);
        } else {
            assert(r.names[i] == m.names[i + 1]);
        }
    }
    assert forall|i: int, k: int|
        0 <= i < r.vectors.len() && 0 <= k < r.vectors[i].len()
            implies (#[trigger] r.vectors[i][k]).word_id < v.len() by {
        lemma_term_counts_ids(tokens_of(r.names[i]), v);
    }
    if m.names_unique() {
        assert forall|i: int, j: int| 0 <= i < r.names.len() && 0 <= j < r.names.len() && i != j implies r.names[i] != r.names[j] by {
            let i2 = if i < p { i } else { i + 1 };
            let j2 = if j < p { j } else { j + 1 };
            assert(r.names[i] == m.names[i2] && r.names[j] == m.names[j2]);
        }
    }
}

impl TfIdfIndex {
    /// Weights every vector anew from its name, with the current statistics.
    fn recalculate_all_idf(&mut self)
        requires
            old(self).document_frequencies.len() == old(self).vocabulary.len(),
            old(self).tfidf_vectors.len() == old(self).entity_names.len(),
        ensures
            final(self)@ == (IndexModel {
                vectors: Seq::new(
                    old(self)@.names.len(),
                    |i: int|
                        vector_of(
                            old(self)@.names[i],
                            old(self)@.vocabulary,
                            old(self).total_docs,
                            old(self)@.document_frequencies,
                        ),
                ),
                ..old(self)@
            }),
    {
        let ghost start = self@;
        let mut i: usize = 0;
        while i < self.tfidf_vectors.len()
            invariant
                i <= self.tfidf_vectors.len(),
                self.tfidf_vectors.len() == self.entity_names.len(),
                self.document_frequencies.len() == self.vocabulary.len(),
                self.vocabulary == old(self).vocabulary,
                self.document_frequencies == old(self).document_frequencies,
                self.entity_names == old(self).entity_names,
                self.total_docs == old(self).total_docs,
                start == old(self)@,
                forall|j: int| 0 <= j < i ==> (#[trigger] self.tfidf_vectors@[j])@ == vector_of(
                    start.names[j],
                    start.vocabulary,
                    self.total_docs,
                    start.document_frequencies,
                ),
            decreases self.tfidf_vectors.len() - i,
        {
            let tokens = tokenize(self.entity_names[i].as_str());
            let x = vector_for(&tokens, &self.vocabulary, self.total_docs, &self.document_frequencies);
            self.tfidf_vectors.set(i, x);
            i = i + 1;
        }
        assert(self@.vectors =~= Seq::new(
            start.names.len(),
            |i: int| vector_of(start.names[i], start.vocabulary, start.total_docs, start.document_frequencies),
        ));
    }

    /// Removes one entity; returns whether a name equal to `entity_name` was indexed.
    pub fn remove_entity(&mut self, entity_name: &str) -> (r: bool)
        requires
            old(self).wf(),
        ensures
            r == old(self)@.names.contains(entity_name@),
            final(self)@ == removed(old(self)@, entity_name@),
            final(self).wf(),
            old(self)@.names_unique() ==> final(self)@.names_unique(),
    {
        let ghost m = self@;
        let name = String::from_str(entity_name);
        proof {
            lemma_index_of(m.names, entity_name@);
        }
        match position_of(&self.entity_names, &name) {
            None => {
                assert(!m.names.contains(entity_name@));
                false
            },
            Some(index) => {
                let tokens = tokenize(entity_name);
                let ghost ts = tokens.deep_view();
                let mut w: usize = 0;
                while w < self.vocabulary.len()
                    invariant
                        w <= self.vocabulary.len(),
                        m == old(self)@,
                        m.wf(),
                        ts == tokens.deep_view(),
                        ts == tokens_of(entity_name@),
                        index as int == index_of(m.names, entity_name@),
                        0 <= index < m.names.len(),
                        m.names[index as int] == entity_name@,
                        self.vocabulary == old(self).vocabulary,
                        self.document_frequencies.len() == self.vocabulary.len(),
                        forall|x: int| 0 <= x < w ==> #[trigger] self.document_frequencies@[x] == removed_freq(
                            m.document_frequencies,
                            ts,
                            m.vocabulary,
                            x,
                        ),
                        forall|x: int| w <= x < self.vocabulary.len() ==> #[trigger] self.document_frequencies@[x]
                            == m.document_frequencies[x],
                        self.entity_names == old(self).entity_names,
                        self.tfidf_vectors == old(self).tfidf_vectors,
                        self.total_docs == old(self).total_docs,
                    decreases self.vocabulary.len() - w,
                {
                    proof {
                        assert(self.vocabulary@[w as int]@ == m.vocabulary[w as int]);
                        lemma_doc_freq_remove(m.names, index as int, m.vocabulary[w as int]);
                    }
                    if contains_name(&tokens, &self.vocabulary[w]) {
                        let d = self.document_frequencies[w];
                        self.document_frequencies.set(w, d - 1);
                    }
                    w = w + 1;
                }
                self.entity_names.remove(index);
                self.tfidf_vectors.remove(index);
                self.total_docs = self.total_docs - 1;
                proof {
                    assert(self@.names =~= m.names.remove(index as int));
                    assert(self@.document_frequencies =~= removed(m, entity_name@).document_frequencies);
                }
                self.recalculate_all_idf();
                proof {
                    let rm = removed(m, entity_name@);
                    assert(self@.vectors =~= rm.vectors);
                    lemma_wf_removed(m, entity_name@);
                    assert(m.names.contains(entity_name@));
                }
                true
            },
        }
    }
}

} // verus!
