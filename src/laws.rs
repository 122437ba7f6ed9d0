use vstd::prelude::*;

use crate::block::block_text;
use crate::cell_object::{order_of, ObjectView};
use crate::parser::{
    declared, doc_of, insert_by_order, names_distinct, pair_name, sort_by_order, sorted_by_order,
    texts, CellPair,
};
use crate::text::{lower_of, strs_view};

verus! {

broadcast use vstd::seq_lib::group_to_multiset_ensures;

/// The orders of the elements a document declares, shadowed ones included,
/// are exactly 0, 1, ..., N-1, each once.
pub proof fn lemma_order_dense(ps: Seq<CellPair>)
    requires
        ps.len() <= usize::MAX,
    ensures
        forall|i: int| 0 <= i < ps.len() ==> order_of(#[trigger] declared(ps)[i]) == i,
        declared(ps).map_values(|o: ObjectView| order_of(o)).to_set() =~= Set::new(
            |n: usize| n < ps.len(),
        ),
{
    let os = declared(ps).map_values(|o: ObjectView| order_of(o));
    assert forall|n: usize| os.to_set().contains(n) <==> n < ps.len() by {
        if n < ps.len() {
            assert(os[n as int] == n);
        }
        if os.to_set().contains(n) {
            let i = choose|i: int| 0 <= i < os.len() && os[i] == n;
            assert(os[i] == i);
        }
    }
}

/// Of the captures that share a lower-cased name, the table keeps the last
/// one: under that key it holds the element the last one declared, with its
/// order.
pub proof fn lemma_last_write_wins(ps: Seq<CellPair>, j: int)
    requires
        0 <= j < ps.len(),
        forall|l: int|
            j < l < ps.len() ==> lower_of(pair_name(#[trigger] ps[l])) != lower_of(
                pair_name(ps[j]),
            ),
    ensures
        doc_of(ps).contains_key(lower_of(pair_name(ps[j]))),
        doc_of(ps)[lower_of(pair_name(ps[j]))] == declared(ps)[j],
    decreases ps.len(),
{
    if j < ps.len() - 1 {
        let t = ps.drop_last();
        assert forall|l: int| j < l < t.len() implies lower_of(pair_name(#[trigger] t[l]))
            != lower_of(pair_name(t[j])) by {
            assert(t[l] == ps[l]);
        }
        lemma_last_write_wins(t, j);
        assert(ps[ps.len() - 1] == ps.last());
        assert(declared(t)[j] == declared(ps)[j]);
    }
}

/// A key is in the table exactly when some capture has it as its lower-cased
/// name.
pub proof fn lemma_doc_keys(ps: Seq<CellPair>, k: Seq<char>)
    ensures
        doc_of(ps).contains_key(k) <==> exists|i: int|
            0 <= i < ps.len() && lower_of(pair_name(#[trigger] ps[i])) == k,
    decreases ps.len(),
{
    if ps.len() > 0 {
        let t = ps.drop_last();
        lemma_doc_keys(t, k);
        if doc_of(ps).contains_key(k) && lower_of(pair_name(ps.last())) != k {
            let i = choose|i: int| 0 <= i < t.len() && lower_of(pair_name(#[trigger] t[i])) == k;
            assert(ps[i] == t[i]);
        }
        if exists|i: int| 0 <= i < ps.len() && lower_of(pair_name(#[trigger] ps[i])) == k {
            let i = choose|i: int| 0 <= i < ps.len() && lower_of(pair_name(#[trigger] ps[i])) == k;
            if i < ps.len() - 1 {
                assert(t[i] == ps[i]);
            }
        }
    }
}

proof fn lemma_insert_by_order(s: Seq<ObjectView>, x: ObjectView)
    requires
        sorted_by_order(s),
    ensures
        sorted_by_order(insert_by_order(s, x)),
        insert_by_order(s, x).to_multiset() =~= s.to_multiset().insert(x),
    decreases s.len(),
{
    if s.len() > 0 {
        let t = s.drop_last();
        let l = s.last();
        assert(s =~= t.push(l));
        if order_of(x) < order_of(l) {
            lemma_insert_by_order(t, x);
            let r = insert_by_order(t, x);
            assert forall|i: int| 0 <= i < r.len() implies order_of(#[trigger] r[i]) <= order_of(
                l,
            ) by {
                assert(r.to_multiset().count(r[i]) > 0);
                if r[i] != x {
                    assert(t.to_multiset().count(r[i]) > 0);
                    assert(t.contains(r[i]));
                    let k = choose|k: int| 0 <= k < t.len() && t[k] == r[i];
                    assert(s[k] == t[k]);
                }
            }
            assert(insert_by_order(s, x) =~= r.push(l));
        } else {
            assert(insert_by_order(s, x) =~= s.push(x));
        }
    } else {
        assert(insert_by_order(s, x) =~= seq![x]);
        assert(seq![x] =~= Seq::<ObjectView>::empty().push(x));
    }
}

/// Sorting by order yields the same elements, each as often, with ascending
/// orders.
pub proof fn lemma_sort_by_order(s: Seq<ObjectView>)
    ensures
        sorted_by_order(sort_by_order(s)),
        sort_by_order(s).to_multiset() =~= s.to_multiset(),
        sort_by_order(s).len() == s.len(),
    decreases s.len(),
{
    if s.len() > 0 {
        let t = s.drop_last();
        lemma_sort_by_order(t);
        lemma_insert_by_order(sort_by_order(t), s.last());
        assert(s =~= t.push(s.last()));
        assert(sort_by_order(s).to_multiset().len() == s.to_multiset().len());
    }
}

/// Elements already in ascending order are left as they are.
proof fn lemma_sort_sorted(s: Seq<ObjectView>)
    requires
        sorted_by_order(s),
    ensures
        sort_by_order(s) == s,
    decreases s.len(),
{
    if s.len() > 0 {
        let t = s.drop_last();
        lemma_sort_sorted(t);
        if t.len() > 0 {
            assert(order_of(t.last()) <= order_of(s.last()));
        }
        assert(t.push(s.last()) =~= s);
    }
}

/// A document of blocks with distinct names renders, in declaration order,
/// each block as it was declared: its name and its lines, in the order of
/// the document.
pub proof fn lemma_round_trip_blocks(ps: Seq<CellPair>)
    requires
        ps.len() <= usize::MAX,
        names_distinct(ps),
        forall|i: int| 0 <= i < ps.len() ==> #[trigger] ps[i] is Block,
    ensures
        texts(sort_by_order(declared(ps))) == Seq::new(
            ps.len(),
            |i: int| block_text(pair_name(ps[i]), strs_view(ps[i]->values@)),
        ),
{
    let d = declared(ps);
    assert(sorted_by_order(d));
    lemma_sort_sorted(d);
    assert(texts(d) =~= Seq::new(
        ps.len(),
        |i: int| block_text(pair_name(ps[i]), strs_view(ps[i]->values@)),
    ));
}

} // verus!
