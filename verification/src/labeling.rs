//! The learning map: a substring-keyed lookup table that seeds
//! auto-categorization and remembers user corrections.
//!
//! Keys are lower-cased fragments; a lookup succeeds when any key occurs
//! inside the lower-cased title. Entries are kept in a definite order and
//! the most recently recorded key is consulted first, so a fresh user
//! correction always takes precedence over older entries and over the
//! built-in dictionary.

use vstd::prelude::*;

use crate::models::lemma_vec_deep_view;
use crate::models::Category;
use crate::text::contains_seq;
use crate::text::contains_sub;
use crate::text::lower;
use crate::text::to_lower;

verus! {

/// One entry per key: no two entries share a key.
pub open spec fn unique_keys<VV>(m: Seq<(Seq<char>, VV)>) -> bool {
    forall|i: int, j: int| 0 <= i < j < m.len() ==> (#[trigger] m[i]).0 != (#[trigger] m[j]).0
}

/// Some entry of `m` has key `k`.
pub open spec fn has_key<VV>(m: Seq<(Seq<char>, VV)>, k: Seq<char>) -> bool {
    exists|i: int| 0 <= i < m.len() && (#[trigger] m[i]).0 == k
}

/// The value of the first entry whose key occurs inside the lower-cased
/// title, if any.
pub open spec fn map_lookup<VV>(m: Seq<(Seq<char>, VV)>, title: Seq<char>) -> Option<VV>
    decreases m.len(),
{
    if m.len() == 0 {
        None
    } else if contains_seq(lower(title), m[0].0) {
        Some(m[0].1)
    } else {
        map_lookup(m.drop_first(), title)
    }
}

/// `m` without every entry whose key is `k`, order preserved.
pub open spec fn remove_key<VV>(m: Seq<(Seq<char>, VV)>, k: Seq<char>) -> Seq<(Seq<char>, VV)>
    decreases m.len(),
{
    if m.len() == 0 {
        m
    } else if m[0].0 == k {
        remove_key(m.drop_first(), k)
    } else {
        seq![m[0]] + remove_key(m.drop_first(), k)
    }
}

/// Recording a value under `k`: the new entry goes to the front and any
/// older entry under the same key is dropped.
pub open spec fn map_insert<VV>(
    m: Seq<(Seq<char>, VV)>,
    k: Seq<char>,
    v: VV,
) -> Seq<(Seq<char>, VV)> {
    seq![(k, v)] + remove_key(m, k)
}

/// First occurrence of each key wins; later duplicates are dropped.
pub open spec fn dedup_keys<VV>(m: Seq<(Seq<char>, VV)>) -> Seq<(Seq<char>, VV)>
    decreases m.len(),
{
    if m.len() == 0 {
        m
    } else if has_key(m.drop_last(), m.last().0) {
        dedup_keys(m.drop_last())
    } else {
        dedup_keys(m.drop_last()) + seq![m.last()]
    }
}

/// Removing a key removes exactly the entries under it: the key is gone,
/// no other entry is invented, and distinct keys stay distinct.
pub proof fn lemma_remove_key<VV>(m: Seq<(Seq<char>, VV)>, k: Seq<char>)
    ensures
        !has_key(remove_key(m, k), k),
        forall|k2: Seq<char>| #[trigger] has_key(remove_key(m, k), k2) ==> has_key(m, k2),
        unique_keys(m) ==> unique_keys(remove_key(m, k)),
    decreases m.len(),
{
    if m.len() == 0 {
    } else {
        let d = m.drop_first();
        lemma_remove_key(d, k);
        assert(forall|i: int| 0 <= i < d.len() ==> d[i] == m[i + 1]);
        if unique_keys(m) {
            assert(unique_keys(d));
        }
        if m[0].0 == k {
            assert forall|k2: Seq<char>| #[trigger] has_key(remove_key(m, k), k2) implies has_key(
                m,
                k2,
            ) by {
                if has_key(remove_key(d, k), k2) {
                    assert(has_key(d, k2));
                    let i = choose|i: int| 0 <= i < d.len() && (#[trigger] d[i]).0 == k2;
                    assert(m[i + 1].0 == k2);
                }
            }
        } else {
            let rec = remove_key(d, k);
            let r = remove_key(m, k);
            assert(r == seq![m[0]] + rec);
            assert(r[0] == m[0]);
            assert(forall|i: int| 1 <= i < r.len() ==> r[i] == rec[i - 1]);
            assert forall|i: int| 0 <= i < r.len() implies (#[trigger] r[i]).0 != k by {
                if i >= 1 {
                    if rec[i - 1].0 == k {
                        assert(has_key(rec, k));
                    }
                }
            }
            assert(!has_key(r, k)) by {
                if has_key(r, k) {
                    let i = choose|i: int| 0 <= i < r.len() && (#[trigger] r[i]).0 == k;
                }
            }
            assert forall|k2: Seq<char>| #[trigger] has_key(r, k2) implies has_key(m, k2) by {
                let i = choose|i: int| 0 <= i < r.len() && (#[trigger] r[i]).0 == k2;
                if i == 0 {
                    assert(m[0].0 == k2);
                } else {
                    assert(rec[i - 1].0 == k2);
                    assert(has_key(rec, k2));
                    let w = choose|w: int| 0 <= w < d.len() && (#[trigger] d[w]).0 == k2;
                    assert(m[w + 1].0 == k2);
                }
            }
            if unique_keys(m) {
                assert forall|i: int, j: int| 0 <= i < j < r.len() implies (#[trigger] r[i]).0 != (
                #[trigger] r[j]).0 by {
                    if i == 0 {
                        if r[j].0 == m[0].0 {
                            assert(rec[j - 1].0 == m[0].0);
                            assert(has_key(rec, m[0].0));
                            assert(has_key(d, m[0].0));
                            let w = choose|w: int| 0 <= w < d.len() && (#[trigger] d[w]).0 == m[0].0;
                            assert(m[w + 1].0 == m[0].0);
                        }
                    }
                }
            }
        }
    }
}

/// Inserting keeps keys unique.
pub proof fn lemma_map_insert_unique<VV>(m: Seq<(Seq<char>, VV)>, k: Seq<char>, v: VV)
    requires
        unique_keys(m),
    ensures
        unique_keys(map_insert(m, k, v)),
{
    lemma_remove_key(m, k);
    let rec = remove_key(m, k);
    let r = map_insert(m, k, v);
    assert(r[0] == (k, v));
    assert(forall|i: int| 1 <= i < r.len() ==> r[i] == rec[i - 1]);
    assert forall|i: int, j: int| 0 <= i < j < r.len() implies (#[trigger] r[i]).0 != (
    #[trigger] r[j]).0 by {
        if i == 0 {
            if r[j].0 == k {
                assert(rec[j - 1].0 == k);
                assert(has_key(rec, k));
            }
        }
    }
}

/// Deduplication does not change which keys are present.
pub proof fn lemma_dedup_keys_same<VV>(m: Seq<(Seq<char>, VV)>, k: Seq<char>)
    ensures
        has_key(dedup_keys(m), k) == has_key(m, k),
    decreases m.len(),
{
    if m.len() == 0 {
    } else {
        let d = m.drop_last();
        lemma_dedup_keys_same(d, k);
        assert(forall|i: int| 0 <= i < d.len() ==> d[i] == m[i]);
        if has_key(d, m.last().0) {
            // dedup_keys(m) == dedup_keys(d)
            if has_key(m, k) {
                let i = choose|i: int| 0 <= i < m.len() && (#[trigger] m[i]).0 == k;
                if i < m.len() - 1 {
                    assert(d[i].0 == k);
                    assert(has_key(d, k));
                } else {
                    assert(m.last().0 == k);
                    assert(has_key(d, k));
                }
            }
            if has_key(d, k) {
                assert(has_key(m, k)) by {
                    let i = choose|i: int| 0 <= i < d.len() && (#[trigger] d[i]).0 == k;
                    assert(m[i].0 == k);
                }
            }
        } else {
            let r = dedup_keys(d) + seq![m.last()];
            assert(forall|i: int| 0 <= i < r.len() - 1 ==> r[i] == dedup_keys(d)[i]);
            assert(r[r.len() - 1] == m.last());
            if has_key(m, k) {
                let i = choose|i: int| 0 <= i < m.len() && (#[trigger] m[i]).0 == k;
                if i < m.len() - 1 {
                    assert(d[i].0 == k);
                    assert(has_key(d, k));
                    assert(has_key(dedup_keys(d), k));
                    let w = choose|w: int|
                        0 <= w < dedup_keys(d).len() && (#[trigger] dedup_keys(d)[w]).0 == k;
                    assert(r[w].0 == k);
                    assert(has_key(r, k));
                } else {
                    assert(r[r.len() - 1].0 == k);
                    assert(has_key(r, k));
                }
            }
            if has_key(r, k) {
                let i = choose|i: int| 0 <= i < r.len() && (#[trigger] r[i]).0 == k;
                if i < r.len() - 1 {
                    assert(has_key(dedup_keys(d), k));
                    assert(has_key(d, k));
                    let w = choose|w: int| 0 <= w < d.len() && (#[trigger] d[w]).0 == k;
                    assert(m[w].0 == k);
                } else {
                    assert(m.last().0 == k);
                }
            }
        }
    }
}

/// Deduplication leaves keys unique.
pub proof fn lemma_dedup_keys_unique<VV>(m: Seq<(Seq<char>, VV)>)
    ensures
        unique_keys(dedup_keys(m)),
    decreases m.len(),
{
    if m.len() == 0 {
    } else {
        let d = m.drop_last();
        lemma_dedup_keys_unique(d);
        if has_key(d, m.last().0) {
        } else {
            let r = dedup_keys(d) + seq![m.last()];
            assert(forall|i: int| 0 <= i < r.len() - 1 ==> r[i] == dedup_keys(d)[i]);
            assert(r[r.len() - 1] == m.last());
            assert forall|i: int, j: int| 0 <= i < j < r.len() implies (#[trigger] r[i]).0 != (
            #[trigger] r[j]).0 by {
                if j == r.len() - 1 {
                    if r[i].0 == m.last().0 {
                        assert(has_key(dedup_keys(d), m.last().0));
                        lemma_dedup_keys_same(d, m.last().0);
                    }
                }
            }
        }
    }
}

/// On a map whose keys are already unique, deduplication is the
/// identity: writing a map out entry by entry and reading it back in
/// reproduces it exactly, so every lookup gives the same answer.
pub proof fn lemma_dedup_identity<VV>(m: Seq<(Seq<char>, VV)>)
    requires
        unique_keys(m),
    ensures
        dedup_keys(m) == m,
    decreases m.len(),
{
    if m.len() == 0 {
    } else {
        let d = m.drop_last();
        assert(forall|i: int| 0 <= i < d.len() ==> d[i] == m[i]);
        assert(unique_keys(d));
        lemma_dedup_identity(d);
        assert(!has_key(d, m.last().0)) by {
            if has_key(d, m.last().0) {
                let i = choose|i: int| 0 <= i < d.len() && (#[trigger] d[i]).0 == m.last().0;
                assert(m[i].0 == m[m.len() - 1].0);
            }
        }
        assert(dedup_keys(m) == d + seq![m.last()]);
        assert(d + seq![m.last()] =~= m);
    }
}

/// A substring-keyed map from lower-cased title fragments to values.
pub struct FieldMap<V> {
    entries: Vec<(String, V)>,
}

impl<V: DeepView> View for FieldMap<V> {
    type V = Seq<(Seq<char>, V::V)>;

    closed spec fn view(&self) -> Seq<(Seq<char>, V::V)> {
        self.entries.deep_view()
    }
}

impl<V: DeepView> FieldMap<V> {
    /// The map's internal invariant: one entry per key.
    pub open spec fn wf(&self) -> bool {
        unique_keys(self@)
    }

    /// The value recorded under the first key that occurs inside the
    /// lower-cased title, if any key does.
    pub fn get(&self, title: &String) -> (r: Option<&V>)
        ensures
            match r {
                Some(v) => map_lookup(self@, title@) == Some(v.deep_view()),
                None => map_lookup(self@, title@) is None,
            },
    {
        let hay = to_lower(title.as_str());
        let n = self.entries.len();
        let mut i: usize = 0;
        proof {
            assert(self@.skip(0) =~= self@);
        }
        while i < n
            invariant
                n == self.entries.len(),
                self@.len() == n,
                i <= n,
                hay@ == lower(title@),
                map_lookup(self@, title@) == map_lookup(self@.skip(i as int), title@),
            decreases n - i,
        {
            proof {
                assert(self@[i as int] == (self.entries@[i as int].0@, self.entries@[i as int].1.deep_view()));
                assert(self@.skip(i as int)[0] == self@[i as int]);
            }
            if contains_sub(hay.as_str(), self.entries[i].0.as_str()) {
                return Some(&self.entries[i].1);
            }
            proof {
                assert(self@.skip(i as int).drop_first() =~= self@.skip(i + 1));
            }
            i += 1;
        }
        None
    }

    /// Record `somevalue` under the lower-cased `title`. The new entry is
    /// consulted first by later lookups; an older entry under the same
    /// key is dropped. `None` leaves the map unchanged.
    pub fn insert(&mut self, title: &String, somevalue: Option<V>)
        requires
            old(self).wf(),
        ensures
            final(self).wf(),
            match somevalue {
                Some(v) => final(self)@ == map_insert(old(self)@, lower(title@), v.deep_view()),
                None => final(self)@ == old(self)@,
            },
    {
        let value = match somevalue {
            Some(v) => v,
            None => {
                return ;
            },
        };
        let ghost m0 = self@;
        let ghost k = lower(title@);
        let lowkey = to_lower(title.as_str());
        let mut out: Vec<(String, V)> = Vec::new();
        let ghost mut processed: int = 0;
        proof {
            assert(m0.take(0) =~= Seq::<(Seq<char>, V::V)>::empty());
            assert(out.deep_view() =~= remove_key(m0.take(0), k));
        }
        while self.entries.len() > 0
            invariant
                0 <= processed <= m0.len(),
                self.entries.deep_view() =~= m0.skip(processed),
                out.deep_view() =~= remove_key(m0.take(processed), k),
                k == lowkey@,
            decreases self.entries.len(),
        {
            let ghost pre_out = out.deep_view();
            let ghost pre_dv = self.entries.deep_view();
            let ghost pre_sq = self.entries@;
            proof {
                lemma_vec_deep_view(&self.entries);
            }
            let e = self.entries.remove(0);
            proof {
                lemma_vec_deep_view(&self.entries);
                assert(e.deep_view() == pre_dv[0]);
                assert(e.deep_view() == m0[processed]);
                assert(forall|j: int|
                    0 <= j < self.entries@.len() ==> self.entries@[j] == pre_sq[j + 1]);
                assert forall|j: int|
                    0 <= j < self.entries.deep_view().len() implies self.entries.deep_view()[j]
                    == m0.skip(processed + 1)[j] by {
                    assert(self.entries.deep_view()[j] == self.entries@[j].deep_view());
                    assert(pre_dv[j + 1] == pre_sq[j + 1].deep_view());
                    assert(pre_dv[j + 1] == m0.skip(processed)[j + 1]);
                }
                assert(self.entries.deep_view() =~= m0.skip(processed + 1));
                lemma_remove_key_push(m0.take(processed), m0[processed], k);
                assert(m0.take(processed).push(m0[processed]) =~= m0.take(processed + 1));
            }
            if e.0 == lowkey {
                proof {
                    assert(out.deep_view() =~= remove_key(m0.take(processed + 1), k));
                }
            } else {
                out.push(e);
                proof {
                    assert(out.deep_view() =~= pre_out.push(m0[processed]));
                    assert(out.deep_view() =~= remove_key(m0.take(processed + 1), k));
                }
            }
            proof {
                processed = processed + 1;
            }
        }
        proof {
            assert(m0.take(processed) =~= m0);
        }
        let ghost pre_out = out.deep_view();
        out.insert(0, (lowkey, value));
        proof {
            assert(out.deep_view() =~= seq![(k, value.deep_view())] + pre_out);
        }
        self.entries = out;
        proof {
            assert(self@ =~= map_insert(m0, k, value.deep_view()));
            lemma_map_insert_unique(m0, k, value.deep_view());
        }
    }

    /// Borrow the backing entries, for persistence.
    pub fn entries(&self) -> (r: &Vec<(String, V)>)
        ensures
            r.deep_view() == self@,
    {
        &self.entries
    }

    /// Rebuild a map from persisted rows. Rows keep their order; when a
    /// key occurs twice, the first row wins.
    pub fn from_rows(rows: Vec<(String, V)>) -> (r: Self)
        ensures
            r@ == dedup_keys(rows.deep_view()),
            r.wf(),
    {
        let ghost m0 = rows.deep_view();
        let mut rows = rows;
        let mut out: Vec<(String, V)> = Vec::new();
        let ghost mut processed: int = 0;
        proof {
            assert(m0.take(0) =~= Seq::<(Seq<char>, V::V)>::empty());
            assert(out.deep_view() =~= dedup_keys(m0.take(0)));
        }
        while rows.len() > 0
            invariant
                0 <= processed <= m0.len(),
                rows.deep_view() =~= m0.skip(processed),
                out.deep_view() =~= dedup_keys(m0.take(processed)),
            decreases rows.len(),
        {
            let ghost pre_out = out.deep_view();
            let ghost pre_dv = rows.deep_view();
            let ghost pre_sq = rows@;
            proof {
                lemma_vec_deep_view(&rows);
            }
            let e = rows.remove(0);
            proof {
                lemma_vec_deep_view(&rows);
                assert(e.deep_view() == pre_dv[0]);
                assert(e.deep_view() == m0[processed]);
                assert(forall|j: int| 0 <= j < rows@.len() ==> rows@[j] == pre_sq[j + 1]);
                assert forall|j: int|
                    0 <= j < rows.deep_view().len() implies rows.deep_view()[j] == m0.skip(
                    processed + 1,
                )[j] by {
                    assert(rows.deep_view()[j] == rows@[j].deep_view());
                    assert(pre_dv[j + 1] == pre_sq[j + 1].deep_view());
                    assert(pre_dv[j + 1] == m0.skip(processed)[j + 1]);
                }
                assert(rows.deep_view() =~= m0.skip(processed + 1));
                assert(m0.take(processed + 1).drop_last() =~= m0.take(processed));
                assert(m0.take(processed + 1).last() == m0[processed]);
            }
            let dup = contains_key(&out, &e.0);
            proof {
                lemma_dedup_keys_same(m0.take(processed), m0[processed].0);
            }
            if !dup {
                out.push(e);
                proof {
                    assert(out.deep_view() =~= pre_out.push(m0[processed]));
                    assert(out.deep_view() =~= dedup_keys(m0.take(processed)) + seq![m0[processed]]);
                }
            }
            proof {
                processed = processed + 1;
                assert(out.deep_view() =~= dedup_keys(m0.take(processed)));
            }
        }
        proof {
            assert(m0.take(processed) =~= m0);
            lemma_dedup_keys_unique(m0);
        }
        FieldMap { entries: out }
    }
}

/// Whether some entry of `v` has exactly the key `k`.
fn contains_key<V: DeepView>(v: &Vec<(String, V)>, k: &String) -> (r: bool)
    ensures
        r == has_key(v.deep_view(), k@),
{
    let n = v.len();
    let mut i: usize = 0;
    while i < n
        invariant
            n == v.len(),
            i <= n,
            forall|j: int| 0 <= j < i ==> (#[trigger] v.deep_view()[j]).0 != k@,
        decreases n - i,
    {
        proof {
            assert(v.deep_view()[i as int] == (v@[i as int].0@, v@[i as int].1.deep_view()));
        }
        if v[i].0 == *k {
            return true;
        }
        i += 1;
    }
    proof {
        if has_key(v.deep_view(), k@) {
            let w = choose|w: int|
                0 <= w < v.deep_view().len() && (#[trigger] v.deep_view()[w]).0 == k@;
        }
    }
    false
}

/// Removing a key from a sequence extended on the right.
proof fn lemma_remove_key_push<VV>(s: Seq<(Seq<char>, VV)>, e: (Seq<char>, VV), k: Seq<char>)
    ensures
        remove_key(s.push(e), k) == if e.0 == k {
            remove_key(s, k)
        } else {
            remove_key(s, k) + seq![e]
        },
    decreases s.len(),
{
    if s.len() == 0 {
        assert(s.push(e).drop_first() =~= s);
        assert(s.push(e)[0] == e);
        if e.0 == k {
            assert(remove_key(s.push(e), k) =~= remove_key(s, k));
        } else {
            assert(remove_key(s.push(e), k) =~= remove_key(s, k) + seq![e]);
        }
    } else {
        assert(s.push(e).drop_first() =~= s.drop_first().push(e));
        assert(s.push(e)[0] == s[0]);
        lemma_remove_key_push(s.drop_first(), e, k);
        if s[0].0 == k {
        } else {
            if e.0 == k {
            } else {
                assert(seq![s[0]] + (remove_key(s.drop_first(), k) + seq![e]) =~= (seq![s[0]]
                    + remove_key(s.drop_first(), k)) + seq![e]);
            }
        }
    }
}

impl FieldMap<Category> {
    /// The built-in seed dictionary, consulted in listed order.
    pub open spec fn builtin_entries() -> Seq<(Seq<char>, Category)> {
        seq![
            ("ifood"@, Category::Food),
            ("uber"@, Category::Transportation),
            ("supermercado"@, Category::Supermarket),
            ("restaurante"@, Category::Food),
            ("lanche"@, Category::Food),
            ("viacao"@, Category::Trips),
            ("airbnb"@, Category::Trips),
            ("spotify"@, Category::Personal),
            ("doces"@, Category::Food),
            ("esporte"@, Category::Personal),
            ("culinaria"@, Category::Food),
        ]
    }

    /// A category map seeded with the built-in dictionary.
    pub fn new() -> (r: Self)
        ensures
            r@ == Self::builtin_entries(),
            r.wf(),
    {
        let entries = Self::create_category_map();
        proof {
            reveal_strlit("ifood");
            reveal_strlit("uber");
            reveal_strlit("supermercado");
            reveal_strlit("restaurante");
            reveal_strlit("lanche");
            reveal_strlit("viacao");
            reveal_strlit("airbnb");
            reveal_strlit("spotify");
            reveal_strlit("doces");
            reveal_strlit("esporte");
            reveal_strlit("culinaria");
            assert(("ifood"@).len() == 5);
            assert(("uber"@).len() == 4);
            assert(("supermercado"@).len() == 12);
            assert(("restaurante"@).len() == 11);
            assert(("lanche"@).len() == 6);
            assert(("viacao"@).len() == 6);
            assert(("airbnb"@).len() == 6);
            assert(("spotify"@).len() == 7);
            assert(("doces"@).len() == 5);
            assert(("esporte"@).len() == 7);
            assert(("culinaria"@).len() == 9);
            assert(("ifood"@)[0] == 'i' && ("doces"@)[0] == 'd');
            assert(("lanche"@)[0] == 'l' && ("viacao"@)[0] == 'v' && ("airbnb"@)[0] == 'a');
            assert(("spotify"@)[0] == 's' && ("esporte"@)[0] == 'e');
            assert(unique_keys(Self::builtin_entries()));
        }
        FieldMap { entries }
    }

    /// The built-in dictionary as rows.
    fn create_category_map() -> (r: Vec<(String, Category)>)
        ensures
            r.deep_view() == Self::builtin_entries(),
    {
        let mut m: Vec<(String, Category)> = Vec::new();
        m.push(("ifood".to_owned(), Category::Food));
        m.push(("uber".to_owned(), Category::Transportation));
        m.push(("supermercado".to_owned(), Category::Supermarket));
        m.push(("restaurante".to_owned(), Category::Food));
        m.push(("lanche".to_owned(), Category::Food));
        m.push(("viacao".to_owned(), Category::Trips));
        m.push(("airbnb".to_owned(), Category::Trips));
        m.push(("spotify".to_owned(), Category::Personal));
        m.push(("doces".to_owned(), Category::Food));
        m.push(("esporte".to_owned(), Category::Personal));
        m.push(("culinaria".to_owned(), Category::Food));
        proof {
            assert(m.deep_view() =~= Self::builtin_entries());
        }
        m
    }
}

impl FieldMap<String> {
    /// An empty title-alias map.
    pub fn new() -> (r: Self)
        ensures
            r@ == Seq::<(Seq<char>, Seq<char>)>::empty(),
            r.wf(),
    {
        let entries: Vec<(String, String)> = Vec::new();
        proof {
            assert(entries.deep_view() =~= Seq::<(Seq<char>, Seq<char>)>::empty());
        }
        FieldMap { entries }
    }
}

} // verus!
