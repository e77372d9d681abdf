//! The order of texts (by character code, as `str` orders them) and lists of
//! texts compared without regard to order.
use vstd::prelude::*;
use vstd::relations::{sorted_by, total_ordering};

use crate::text::{chars_of, strings_view};

verus! {

/// `a` comes before `b` or equals it, comparing character by character and
/// a proper prefix first.
pub open spec fn text_le(a: Seq<char>, b: Seq<char>) -> bool
    decreases a.len(),
{
    if a.len() == 0 {
        true
    } else if b.len() == 0 {
        false
    } else if a[0] != b[0] {
        a[0] < b[0]
    } else {
        text_le(a.drop_first(), b.drop_first())
    }
}

/// [`text_le`] as a relation.
pub open spec fn text_order() -> spec_fn(Seq<char>, Seq<char>) -> bool {
    |a: Seq<char>, b: Seq<char>| text_le(a, b)
}

proof fn lemma_text_le_reflexive(a: Seq<char>)
    ensures
        text_le(a, a),
    decreases a.len(),
{
    if a.len() > 0 {
        lemma_text_le_reflexive(a.drop_first());
    }
}

proof fn lemma_text_le_antisymmetric(a: Seq<char>, b: Seq<char>)
    requires
        text_le(a, b),
        text_le(b, a),
    ensures
        a == b,
    decreases a.len(),
{
    if a.len() > 0 && b.len() > 0 {
        lemma_text_le_antisymmetric(a.drop_first(), b.drop_first());
        assert(a =~= seq![a[0]] + a.drop_first());
        assert(b =~= seq![b[0]] + b.drop_first());
    } else {
        assert(a =~= b);
    }
}

proof fn lemma_text_le_transitive(a: Seq<char>, b: Seq<char>, c: Seq<char>)
    requires
        text_le(a, b),
        text_le(b, c),
    ensures
        text_le(a, c),
    decreases a.len(),
{
    if a.len() > 0 && b.len() > 0 && c.len() > 0 {
        if a[0] == b[0] && b[0] == c[0] {
            lemma_text_le_transitive(a.drop_first(), b.drop_first(), c.drop_first());
        }
    }
}

proof fn lemma_text_le_total(a: Seq<char>, b: Seq<char>)
    ensures
        text_le(a, b) || text_le(b, a),
    decreases a.len(),
{
    if a.len() > 0 && b.len() > 0 && a[0] == b[0] {
        lemma_text_le_total(a.drop_first(), b.drop_first());
    }
}

/// The order of texts is a total order.
pub proof fn lemma_text_order_total()
    ensures
        total_ordering(text_order()),
{
    assert forall|a: Seq<char>| #[trigger] text_order()(a, a) by {
        lemma_text_le_reflexive(a);
    }
    assert forall|a: Seq<char>, b: Seq<char>|
        #[trigger] text_order()(a, b) && #[trigger] text_order()(b, a) implies a == b by {
        lemma_text_le_antisymmetric(a, b);
    }
    assert forall|a: Seq<char>, b: Seq<char>, c: Seq<char>|
        #[trigger] text_order()(a, b) && #[trigger] text_order()(b, c) implies text_order()(
        a,
        c,
    ) by {
        lemma_text_le_transitive(a, b, c);
    }
    assert forall|a: Seq<char>, b: Seq<char>|
        #[trigger] text_order()(a, b) || #[trigger] text_order()(b, a) by {
        lemma_text_le_total(a, b);
    }
}

/// Whether `a` comes before `b` or equals it.
pub fn text_le_exec(a: &str, b: &str) -> (r: bool)
    ensures
        r == text_le(a@, b@),
{
    let x = chars_of(a);
    let y = chars_of(b);
    let mut i: usize = 0;
    assert(a@.skip(0) =~= a@);
    assert(b@.skip(0) =~= b@);
    while i < x.len() && i < y.len()
        invariant
            x@ == a@,
            y@ == b@,
            i <= x.len(),
            i <= y.len(),
            x@.take(i as int) == y@.take(i as int),
            text_le(a@, b@) == text_le(a@.skip(i as int), b@.skip(i as int)),
        decreases x.len() - i,
    {
        if x[i] != y[i] {
            return x[i] < y[i];
        }
        assert(a@.skip(i as int).drop_first() =~= a@.skip(i + 1));
        assert(b@.skip(i as int).drop_first() =~= b@.skip(i + 1));
        assert(x@.take(i + 1) =~= x@.take(i as int).push(x@[i as int]));
        assert(y@.take(i + 1) =~= y@.take(i as int).push(y@[i as int]));
        i = i + 1;
    }
    i == x.len()
}

/// A copy of a string.
pub fn copy_text(s: &str) -> (r: String)
    ensures
        r@ == s@,
{
    String::from_str(s)
}

/// Copies of a list of strings.
pub fn copy_texts(v: &[String]) -> (r: Vec<String>)
    ensures
        strings_view(r@) == strings_view(v@),
{
    let mut r: Vec<String> = Vec::new();
    let mut i: usize = 0;
    while i < v.len()
        invariant
            i <= v.len(),
            strings_view(r@) == strings_view(v@).take(i as int),
        decreases v.len() - i,
    {
        let ghost before = r@;
        r.push(copy_text(v[i].as_str()));
        assert(strings_view(r@) =~= strings_view(before).push(v@[i as int]@));
        assert(strings_view(r@) =~= strings_view(v@).take(i + 1));
        i = i + 1;
    }
    assert(strings_view(v@).take(i as int) =~= strings_view(v@));
    r
}

/// The texts of `v` in order.
pub open spec fn sorted_texts(v: Seq<Seq<char>>) -> Seq<Seq<char>> {
    v.sort_by(text_order())
}

/// Whether two lists hold the same texts, each as often, in any order.
pub open spec fn same_texts(a: Seq<Seq<char>>, b: Seq<Seq<char>>) -> bool {
    a.to_multiset() == b.to_multiset()
}

/// The only sorted arrangement of a list is its sorted version.
proof fn lemma_sorted_is_sort(s: Seq<Seq<char>>, t: Seq<Seq<char>>)
    requires
        sorted_by(t, text_order()),
        t.to_multiset() == s.to_multiset(),
    ensures
        t == sorted_texts(s),
{
    lemma_text_order_total();
    s.lemma_sort_by_ensures(text_order());
    vstd::seq_lib::lemma_sorted_unique(t, sorted_texts(s), text_order());
}

/// Same texts in any order exactly when the sorted versions are equal.
pub proof fn lemma_same_texts_sorted(a: Seq<Seq<char>>, b: Seq<Seq<char>>)
    ensures
        same_texts(a, b) <==> sorted_texts(a) == sorted_texts(b),
{
    lemma_text_order_total();
    a.lemma_sort_by_ensures(text_order());
    b.lemma_sort_by_ensures(text_order());
    if same_texts(a, b) {
        vstd::seq_lib::lemma_sorted_unique(sorted_texts(a), sorted_texts(b), text_order());
    }
}

/// The strings of `v` in order.
pub fn sort_texts(v: &[String]) -> (r: Vec<String>)
    ensures
        strings_view(r@) == sorted_texts(strings_view(v@)),
{
    broadcast use vstd::seq_lib::group_to_multiset_ensures;

    proof {
        lemma_text_order_total();
    }
    let ghost sv = strings_view(v@);
    let mut out: Vec<String> = Vec::new();
    let mut i: usize = 0;
    assert(sv.take(0) =~= Seq::<Seq<char>>::empty());
    assert(strings_view(out@) =~= Seq::<Seq<char>>::empty());
    while i < v.len()
        invariant
            i <= v.len(),
            sv == strings_view(v@),
            total_ordering(text_order()),
            sorted_by(strings_view(out@), text_order()),
            strings_view(out@).to_multiset() == sv.take(i as int).to_multiset(),
            out@.len() == i,
        decreases v.len() - i,
    {
        let s = v[i].as_str();
        let ghost ov = strings_view(out@);
        let mut p: usize = 0;
        while p < out.len() && text_le_exec(out[p].as_str(), s)
            invariant
                p <= out.len(),
                ov == strings_view(out@),
                forall|q: int| 0 <= q < p ==> text_le(#[trigger] ov[q], s@),
            decreases out.len() - p,
        {
            p = p + 1;
        }
        proof {
            if p < out.len() {
                lemma_text_le_total(ov[p as int], s@);
            }
        }
        out.insert(p, copy_text(s));
        let ghost nv = strings_view(out@);
        proof {
            assert(nv =~= ov.insert(p as int, s@));
            assert forall|a: int, b: int| 0 <= a < b < nv.len() implies #[trigger] text_order()(
                nv[a],
                nv[b],
            ) by {
                if b < p {
                    assert(nv[a] == ov[a] && nv[b] == ov[b]);
                } else if b == p {
                    assert(nv[a] == ov[a]);
                } else if a < p {
                    assert(nv[a] == ov[a] && nv[b] == ov[b - 1]);
                    assert(text_le(ov[a], s@));
                    assert(text_le(s@, ov[p as int]));
                    lemma_text_le_transitive(ov[a], s@, ov[p as int]);
                    if b - 1 > p {
                        assert(text_order()(ov[p as int], ov[b - 1]));
                        lemma_text_le_transitive(ov[a], ov[p as int], ov[b - 1]);
                    }
                } else if a == p {
                    assert(nv[b] == ov[b - 1]);
                    if b - 1 > p {
                        assert(text_order()(ov[p as int], ov[b - 1]));
                        lemma_text_le_transitive(s@, ov[p as int], ov[b - 1]);
                    }
                } else {
                    assert(nv[a] == ov[a - 1] && nv[b] == ov[b - 1]);
                }
            }
            vstd::seq_lib::to_multiset_insert(ov, p as int, s@);
            assert(sv.take(i + 1) =~= sv.take(i as int).push(s@));
            vstd::seq_lib::to_multiset_build(sv.take(i as int), s@);
        }
        i = i + 1;
    }
    proof {
        assert(sv.take(i as int) =~= sv);
        lemma_sorted_is_sort(sv, strings_view(out@));
    }
    out
}

/// Whether two lists of strings hold the same strings, each as often, in any
/// order.
pub fn same_texts_exec(a: &[String], b: &[String]) -> (r: bool)
    ensures
        r == same_texts(strings_view(a@), strings_view(b@)),
{
    proof {
        lemma_same_texts_sorted(strings_view(a@), strings_view(b@));
    }
    let sa = sort_texts(a);
    let sb = sort_texts(b);
    assert(strings_view(sa@).len() == sa@.len());
    assert(strings_view(sb@).len() == sb@.len());
    if sa.len() != sb.len() {
        return false;
    }
    let mut i: usize = 0;
    while i < sa.len()
        invariant
            i <= sa.len() == sb.len(),
            forall|j: int| 0 <= j < i ==> sa@[j]@ == sb@[j]@,
            strings_view(sa@) == sorted_texts(strings_view(a@)),
            strings_view(sb@) == sorted_texts(strings_view(b@)),
            same_texts(strings_view(a@), strings_view(b@)) <==> sorted_texts(strings_view(a@))
                == sorted_texts(strings_view(b@)),
        decreases sa.len() - i,
    {
        if !crate::text::text_eq(sa[i].as_str(), sb[i].as_str()) {
            assert(strings_view(sa@)[i as int] != strings_view(sb@)[i as int]);
            assert(strings_view(sa@) != strings_view(sb@));
            return false;
        }
        i = i + 1;
    }
    assert(strings_view(sa@) =~= strings_view(sb@));
    true
}

} // verus!
