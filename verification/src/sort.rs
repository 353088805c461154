//! Verified stable sorting of the transaction list by the six orderings
//! the table offers: date, title and amount, each ascending or
//! descending. The sort is specified as recursive insertion into a
//! sorted prefix, so the result is a single definite sequence; sorting
//! an already sorted list provably returns it unchanged.

use vstd::prelude::*;

use crate::models::date_le;
use crate::models::lemma_vec_deep_view;
use crate::models::Transaction;
use crate::models::TransactionV;
use crate::text::lemma_lex_le_total;
use crate::text::lemma_lex_le_trans;
use crate::text::lex_le;
use crate::text::lex_le_str;

verus! {

broadcast use vstd::seq_lib::group_to_multiset_ensures;

/// The six orderings the table's one-shot sort menu offers.
#[derive(Clone, Copy, PartialEq, Eq, Structural, Debug)]
pub enum SortOptions {
    DateAsc,
    DateDesc,
    TitleAsc,
    TitleDesc,
    AmountAsc,
    AmountDesc,
}

/// The chosen ordering, as a total preorder on transactions.
pub open spec fn tx_le(k: SortOptions, a: TransactionV, b: TransactionV) -> bool {
    match k {
        SortOptions::DateAsc => date_le(a.date, b.date),
        SortOptions::DateDesc => date_le(b.date, a.date),
        SortOptions::TitleAsc => lex_le(a.title, b.title),
        SortOptions::TitleDesc => lex_le(b.title, a.title),
        SortOptions::AmountAsc => a.amount <= b.amount,
        SortOptions::AmountDesc => b.amount <= a.amount,
    }
}

/// Every ordering compares any two transactions.
pub proof fn lemma_tx_le_total(k: SortOptions, a: TransactionV, b: TransactionV)
    ensures
        tx_le(k, a, b) || tx_le(k, b, a),
{
    match k {
        SortOptions::TitleAsc => lemma_lex_le_total(a.title, b.title),
        SortOptions::TitleDesc => lemma_lex_le_total(b.title, a.title),
        _ => {},
    }
}

/// Every ordering is transitive.
pub proof fn lemma_tx_le_trans(k: SortOptions, a: TransactionV, b: TransactionV, c: TransactionV)
    requires
        tx_le(k, a, b),
        tx_le(k, b, c),
    ensures
        tx_le(k, a, c),
{
    match k {
        SortOptions::TitleAsc => lemma_lex_le_trans(a.title, b.title, c.title),
        SortOptions::TitleDesc => lemma_lex_le_trans(c.title, b.title, a.title),
        _ => {},
    }
}

/// The list is in the chosen order.
pub open spec fn sorted_by(k: SortOptions, s: Seq<TransactionV>) -> bool {
    forall|i: int, j: int| 0 <= i < j < s.len() ==> tx_le(k, #[trigger] s[i], #[trigger] s[j])
}

/// Insert `x` into a sorted list: it goes after every element that
/// compares at-or-before it, so equal elements keep their first-come
/// order and the insertion is stable.
pub open spec fn insert_sorted(k: SortOptions, s: Seq<TransactionV>, x: TransactionV) -> Seq<
    TransactionV,
>
    decreases s.len(),
{
    if s.len() == 0 {
        seq![x]
    } else if tx_le(k, s.last(), x) {
        s.push(x)
    } else {
        insert_sorted(k, s.drop_last(), x).push(s.last())
    }
}

/// The stable insertion sort of the whole list.
pub open spec fn sort_spec(k: SortOptions, s: Seq<TransactionV>) -> Seq<TransactionV>
    decreases s.len(),
{
    if s.len() == 0 {
        s
    } else {
        insert_sorted(k, sort_spec(k, s.drop_last()), s.last())
    }
}

/// Inserting into a sorted list keeps it sorted, grows it by exactly
/// the inserted element, and invents nothing.
pub proof fn lemma_insert_sorted(k: SortOptions, s: Seq<TransactionV>, x: TransactionV)
    requires
        sorted_by(k, s),
    ensures
        sorted_by(k, insert_sorted(k, s, x)),
        insert_sorted(k, s, x).to_multiset() == s.to_multiset().insert(x),
        insert_sorted(k, s, x).len() == s.len() + 1,
        forall|i: int|
            0 <= i < insert_sorted(k, s, x).len() ==> #[trigger] insert_sorted(k, s, x)[i] == x
                || s.contains(insert_sorted(k, s, x)[i]),
    decreases s.len(),
{
    let r = insert_sorted(k, s, x);
    if s.len() == 0 {
        assert(seq![x] =~= Seq::<TransactionV>::empty().push(x));
        assert(r.to_multiset() =~= s.to_multiset().insert(x));
    } else if tx_le(k, s.last(), x) {
        assert forall|i: int, j: int| 0 <= i < j < r.len() implies tx_le(
            k,
            #[trigger] r[i],
            #[trigger] r[j],
        ) by {
            if j == r.len() - 1 {
                if i == s.len() - 1 {
                } else {
                    lemma_tx_le_trans(k, s[i], s[s.len() - 1], x);
                }
            }
        }
    } else {
        let d = s.drop_last();
        assert(forall|i: int| 0 <= i < d.len() ==> d[i] == s[i]);
        assert(sorted_by(k, d));
        lemma_insert_sorted(k, d, x);
        let rec = insert_sorted(k, d, x);
        assert(r == rec.push(s.last()));
        lemma_tx_le_total(k, s.last(), x);
        assert(tx_le(k, x, s.last()));
        assert forall|i: int, j: int| 0 <= i < j < r.len() implies tx_le(
            k,
            #[trigger] r[i],
            #[trigger] r[j],
        ) by {
            if j == r.len() - 1 {
                if rec[i] == x {
                } else {
                    assert(d.contains(rec[i]));
                    let w = choose|w: int| 0 <= w < d.len() && d[w] == rec[i];
                    assert(tx_le(k, s[w], s[s.len() - 1]));
                }
            }
        }
        // multiset: rec.to_multiset() == d.to_multiset().insert(x)
        assert(d.push(s.last()) =~= s);
        assert(s.to_multiset() == d.to_multiset().insert(s.last()));
        assert(r.to_multiset() == rec.to_multiset().insert(s.last()));
        assert(r.to_multiset() =~= s.to_multiset().insert(x));
        assert forall|i: int| 0 <= i < r.len() implies #[trigger] r[i] == x || s.contains(
            r[i],
        ) by {
            if i == r.len() - 1 {
                assert(s[s.len() - 1] == s.last());
            } else {
                if rec[i] == x {
                } else {
                    assert(d.contains(rec[i]));
                    let w = choose|w: int| 0 <= w < d.len() && d[w] == rec[i];
                    assert(s[w] == rec[i]);
                }
            }
        }
    }
}

/// Sorting sorts: the result is in the chosen order and holds exactly
/// the same records.
pub proof fn lemma_sort_spec_sorted(k: SortOptions, s: Seq<TransactionV>)
    ensures
        sorted_by(k, sort_spec(k, s)),
        sort_spec(k, s).to_multiset() == s.to_multiset(),
        sort_spec(k, s).len() == s.len(),
    decreases s.len(),
{
    if s.len() == 0 {
    } else {
        let d = s.drop_last();
        lemma_sort_spec_sorted(k, d);
        lemma_insert_sorted(k, sort_spec(k, d), s.last());
        assert(d.push(s.last()) =~= s);
        assert(s.to_multiset() == d.to_multiset().insert(s.last()));
    }
}

/// Sorting is idempotent: a list already in the chosen order is
/// returned unchanged, element for element.
pub proof fn lemma_sort_idempotent(k: SortOptions, s: Seq<TransactionV>)
    requires
        sorted_by(k, s),
    ensures
        sort_spec(k, s) == s,
    decreases s.len(),
{
    if s.len() == 0 {
    } else {
        let d = s.drop_last();
        assert(forall|i: int| 0 <= i < d.len() ==> d[i] == s[i]);
        assert(sorted_by(k, d));
        lemma_sort_idempotent(k, d);
        if d.len() == 0 {
            assert(seq![s.last()] =~= s);
        } else {
            assert(tx_le(k, d.last(), s.last()));
            assert(d.push(s.last()) =~= s);
        }
    }
}

/// Where the spec-level insertion into a sorted list puts the element:
/// right after the last element that compares at-or-before it.
pub open spec fn cut_of(k: SortOptions, s: Seq<TransactionV>, x: TransactionV) -> int
    decreases s.len(),
{
    if s.len() == 0 {
        0
    } else if tx_le(k, s.last(), x) {
        s.len() as int
    } else {
        cut_of(k, s.drop_last(), x)
    }
}

/// On a sorted list, everything before the cut compares at-or-before
/// the element, everything at or past it strictly after; the insertion
/// splits the list exactly there.
proof fn lemma_cut_of(k: SortOptions, s: Seq<TransactionV>, x: TransactionV)
    requires
        sorted_by(k, s),
    ensures
        0 <= cut_of(k, s, x) <= s.len(),
        forall|j: int| 0 <= j < cut_of(k, s, x) ==> tx_le(k, #[trigger] s[j], x),
        forall|j: int| cut_of(k, s, x) <= j < s.len() ==> !tx_le(k, #[trigger] s[j], x),
        insert_sorted(k, s, x) == s.take(cut_of(k, s, x)) + seq![x] + s.skip(cut_of(k, s, x)),
    decreases s.len(),
{
    let p = cut_of(k, s, x);
    if s.len() == 0 {
    } else if tx_le(k, s.last(), x) {
        assert forall|j: int| 0 <= j < p implies tx_le(k, #[trigger] s[j], x) by {
            if j < s.len() - 1 {
                lemma_tx_le_trans(k, s[j], s[s.len() - 1], x);
            }
        }
    } else {
        let d = s.drop_last();
        assert(forall|i: int| 0 <= i < d.len() ==> d[i] == s[i]);
        assert(sorted_by(k, d));
        lemma_cut_of(k, d, x);
    }
    lemma_insert_sorted_cut(k, s, x, p);
}

/// `f` rearranges `s` into `r` stably: it is a bijection between
/// positions, `r` reads `s` through it, and positions holding
/// equal-key records keep their relative order.
pub open spec fn stable_arrangement(
    k: SortOptions,
    f: Seq<int>,
    s: Seq<TransactionV>,
    r: Seq<TransactionV>,
) -> bool {
    &&& f.len() == s.len()
    &&& r.len() == s.len()
    &&& (forall|i: int| 0 <= i < f.len() ==> 0 <= #[trigger] f[i] < s.len())
    &&& (forall|i: int, j: int| 0 <= i < j < f.len() ==> #[trigger] f[i] != #[trigger] f[j])
    &&& (forall|i: int| 0 <= i < f.len() ==> r[i] == s[#[trigger] f[i]])
    &&& (forall|i: int, j: int|
        0 <= i < j < f.len() && tx_le(k, r[i], r[j]) && tx_le(k, r[j], r[i]) ==> #[trigger] f[i]
            < #[trigger] f[j])
}

/// The sort is stable: some bijection of positions carries the input to
/// the sorted output and never swaps two records the ordering ties.
pub proof fn lemma_sort_spec_stable(k: SortOptions, s: Seq<TransactionV>)
    ensures
        exists|f: Seq<int>| #[trigger] stable_arrangement(k, f, s, sort_spec(k, s)),
{
    let f = stable_witness(k, s);
}

/// Build the position bijection that shows the sort stable.
proof fn stable_witness(k: SortOptions, s: Seq<TransactionV>) -> (f: Seq<int>)
    ensures
        stable_arrangement(k, f, s, sort_spec(k, s)),
    decreases s.len(),
{
    if s.len() == 0 {
        let f = Seq::<int>::empty();
        assert(stable_arrangement(k, f, s, sort_spec(k, s)));
        f
    } else {
        let d = s.drop_last();
        let x = s.last();
        let n = s.len() as int;
        assert(forall|i: int| 0 <= i < d.len() ==> d[i] == s[i]);
        let fd = stable_witness(k, d);
        let rd = sort_spec(k, d);
        lemma_sort_spec_sorted(k, d);
        lemma_cut_of(k, rd, x);
        let p = cut_of(k, rd, x);
        let r = sort_spec(k, s);
        assert(r == insert_sorted(k, rd, x));
        assert(r == rd.take(p) + seq![x] + rd.skip(p));
        let f = fd.take(p) + seq![n - 1] + fd.skip(p);
        assert(f.len() == n);
        assert(forall|i: int| 0 <= i < p ==> f[i] == fd[i]);
        assert(f[p] == n - 1);
        assert(forall|i: int| p < i < n ==> f[i] == fd[i - 1]);
        assert(forall|i: int| 0 <= i < p ==> r[i] == rd[i]);
        assert(r[p] == x);
        assert(forall|i: int| p < i < n ==> r[i] == rd[i - 1]);
        // r reads s through f
        assert forall|i: int| 0 <= i < n implies r[i] == s[#[trigger] f[i]] by {
            if i < p {
                assert(rd[i] == d[fd[i]]);
            } else if i == p {
            } else {
                assert(rd[i - 1] == d[fd[i - 1]]);
            }
        }
        // f is a bijection of positions
        assert forall|i: int, j: int| 0 <= i < j < n implies #[trigger] f[i] != #[trigger] f[j] by {
            if i != p && j != p {
                let i2: int = if i < p {
                    i
                } else {
                    i - 1
                };
                let j2: int = if j < p {
                    j
                } else {
                    j - 1
                };
                assert(fd[i2] != fd[j2]);
            }
        }
        // equal-key records keep their order
        assert forall|i: int, j: int|
            0 <= i < j < n && tx_le(k, r[i], r[j]) && tx_le(k, r[j], r[i]) implies #[trigger] f[i]
            < #[trigger] f[j] by {
            if j == p {
                // everything before the cut came from the shorter list
                assert(f[i] == fd[i]);
                assert(f[i] < n - 1);
            } else if i == p {
                // past the cut nothing ties with the inserted record
                assert(r[j] == rd[j - 1]);
                assert(!tx_le(k, rd[j - 1], x));
            } else {
                let i2: int = if i < p {
                    i
                } else {
                    i - 1
                };
                let j2: int = if j < p {
                    j
                } else {
                    j - 1
                };
                assert(r[i] == rd[i2] && r[j] == rd[j2]);
                assert(fd[i2] < fd[j2]);
            }
        }
        assert(stable_arrangement(k, f, s, r));
        f
    }
}

/// Where the downward scan of an insertion step stops, the spec-level
/// insertion puts the element.
proof fn lemma_insert_sorted_cut(k: SortOptions, s: Seq<TransactionV>, x: TransactionV, p: int)
    requires
        0 <= p <= s.len(),
        p == 0 || tx_le(k, s[p - 1], x),
        forall|j: int| p <= j < s.len() ==> !tx_le(k, #[trigger] s[j], x),
    ensures
        insert_sorted(k, s, x) == s.take(p) + seq![x] + s.skip(p),
    decreases s.len() - p,
{
    if p == s.len() {
        if s.len() == 0 {
            assert(insert_sorted(k, s, x) =~= s.take(p) + seq![x] + s.skip(p));
        } else {
            assert(tx_le(k, s.last(), x));
            assert(s.push(x) =~= s.take(p) + seq![x] + s.skip(p));
        }
    } else {
        assert(!tx_le(k, s[s.len() - 1], x));
        let d = s.drop_last();
        assert(forall|i: int| 0 <= i < d.len() ==> d[i] == s[i]);
        lemma_insert_sorted_cut(k, d, x, p);
        assert(insert_sorted(k, s, x) == insert_sorted(k, d, x).push(s.last()));
        assert((d.take(p) + seq![x] + d.skip(p)).push(s.last()) =~= s.take(p) + seq![x] + s.skip(
            p,
        ));
    }
}

/// Compare two transactions under the chosen ordering.
pub fn tx_le_exec(a: &Transaction, b: &Transaction, k: SortOptions) -> (r: bool)
    ensures
        r == tx_le(k, a@, b@),
{
    match k {
        SortOptions::DateAsc => a.date.le(&b.date),
        SortOptions::DateDesc => b.date.le(&a.date),
        SortOptions::TitleAsc => lex_le_str(a.title.as_str(), b.title.as_str()),
        SortOptions::TitleDesc => lex_le_str(b.title.as_str(), a.title.as_str()),
        SortOptions::AmountAsc => a.amount <= b.amount,
        SortOptions::AmountDesc => b.amount <= a.amount,
    }
}

/// Stable insertion sort of the transaction list under the chosen
/// ordering. The result is exactly the sequence `sort_spec` describes.
pub fn sort_transactions(v: &mut Vec<Transaction>, k: SortOptions)
    ensures
        final(v).deep_view() == sort_spec(k, old(v).deep_view()),
{
    let ghost m0 = v.deep_view();
    let mut i: usize = 1;
    if v.len() <= 1 {
        proof {
            if m0.len() == 0 {
                assert(sort_spec(k, m0) == m0);
            } else {
                assert(m0.drop_last() =~= Seq::<TransactionV>::empty());
                assert(insert_sorted(k, sort_spec(k, m0.drop_last()), m0.last()) =~= seq![
                    m0.last(),
                ]);
                assert(seq![m0.last()] =~= m0);
            }
        }
        return ;
    }
    proof {
        lemma_vec_deep_view(v);
        assert(m0.take(1) =~= seq![m0[0]]);
        assert(m0.take(1).drop_last() =~= Seq::<TransactionV>::empty());
        assert(sort_spec(k, Seq::<TransactionV>::empty()) == Seq::<TransactionV>::empty());
        assert(m0.take(1).len() == 1);
        assert(sort_spec(k, m0.take(1)) == insert_sorted(
            k,
            sort_spec(k, m0.take(1).drop_last()),
            m0.take(1).last(),
        ));
        assert(insert_sorted(k, Seq::<TransactionV>::empty(), m0.take(1).last()) == seq![
            m0.take(1).last(),
        ]);
        assert(sort_spec(k, m0.take(1)) =~= m0.take(1));
        assert(v.deep_view().take(1) =~= sort_spec(k, m0.take(1)));
        assert(v.deep_view().skip(1) =~= m0.skip(1));
    }
    while i < v.len()
        invariant
            1 <= i <= v.len(),
            v.len() == m0.len(),
            v.deep_view().take(i as int) == sort_spec(k, m0.take(i as int)),
            v.deep_view().skip(i as int) == m0.skip(i as int),
            sorted_by(k, v.deep_view().take(i as int)),
        decreases v.len() - i,
    {
        let ghost pre = v.deep_view();
        let ghost prefix = pre.take(i as int);
        proof {
            lemma_vec_deep_view(v);
            assert(pre[i as int] == m0.skip(i as int)[0]);
            assert(pre[i as int] == m0[i as int]);
        }
        let ghost x = pre[i as int];
        // scan down for the insertion point
        let mut q: usize = i;
        while q > 0 && !tx_le_exec(&v[q - 1], &v[i], k)
            invariant
                0 <= q <= i < v.len(),
                v.deep_view() == pre,
                x == pre[i as int],
                forall|j: int| q <= j < i ==> !tx_le(k, #[trigger] pre[j], x),
            decreases q,
        {
            proof {
                lemma_vec_deep_view(v);
            }
            q -= 1;
        }
        proof {
            lemma_vec_deep_view(v);
            assert(q == 0 || tx_le(k, pre[q - 1], x));
        }
        proof {
            assert(forall|j: int| i <= j < m0.len() ==> pre[j] == m0.skip(i as int)[j - i]);
        }
        if q < i {
            let ghost pre_sq = v@;
            let moved = v.remove(i);
            let ghost mid_sq = v@;
            proof {
                assert(moved == pre_sq[i as int]);
                assert(forall|j: int| 0 <= j < i ==> mid_sq[j] == pre_sq[j]);
                assert(forall|j: int| i <= j < mid_sq.len() ==> mid_sq[j] == pre_sq[j + 1]);
            }
            v.insert(q, moved);
            proof {
                lemma_vec_deep_view(v);
                assert(forall|j: int| 0 <= j < q ==> v@[j] == mid_sq[j]);
                assert(v@[q as int] == moved);
                assert(forall|j: int| q < j < v@.len() ==> v@[j] == mid_sq[j - 1]);
                assert(forall|j: int| 0 <= j < q ==> v@[j] == pre_sq[j]);
                assert(forall|j: int| q < j <= i ==> v@[j] == pre_sq[j - 1]);
                assert(forall|j: int| i < j < v@.len() ==> v@[j] == pre_sq[j]);
                assert(forall|j: int|
                    0 <= j < pre.len() ==> #[trigger] pre[j] == pre_sq[j].deep_view());
                assert(forall|j: int| 0 <= j < q ==> #[trigger] v.deep_view()[j] == pre[j]);
                assert(v.deep_view()[q as int] == x);
                assert(forall|j: int| q < j <= i ==> #[trigger] v.deep_view()[j] == pre[j - 1]);
                assert(forall|j: int|
                    i < j < v@.len() ==> #[trigger] v.deep_view()[j] == pre[j]);
            }
        }
        proof {
            // the new prefix of length i + 1 is the spec-level insertion
            assert(forall|j: int| 0 <= j < i ==> prefix[j] == pre[j]);
            assert(forall|j: int| q <= j < i ==> !tx_le(k, #[trigger] prefix[j], x));
            lemma_insert_sorted_cut(k, prefix, x, q as int);
            lemma_insert_sorted(k, prefix, x);
            assert(m0.take(i + 1).drop_last() =~= m0.take(i as int));
            assert(m0.take(i + 1).last() == m0[i as int]);
            assert(sort_spec(k, m0.take(i + 1)) == insert_sorted(k, prefix, x));
            assert(v.deep_view().take(i + 1) =~= prefix.take(q as int) + seq![x] + prefix.skip(
                q as int,
            ));
            assert(v.deep_view().take(i + 1) == insert_sorted(k, prefix, x));
            assert(v.deep_view().skip(i + 1) =~= m0.skip(i + 1));
        }
        i += 1;
    }
    proof {
        assert(m0.take(m0.len() as int) =~= m0);
        assert(v.deep_view().take(m0.len() as int) =~= v.deep_view());
    }
}

} // verus!
