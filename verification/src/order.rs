//! A stable insertion sort for types with a total preorder.
use vstd::prelude::*;

use vstd::multiset::Multiset;
use vstd::relations::sorted_by;

use crate::strings::{
    chars_le, lemma_chars_le_antisymmetric, lemma_chars_le_reflexive, lemma_chars_le_total,
    lemma_chars_le_transitive, str_le,
};

verus! {

broadcast use {vstd::seq_lib::group_to_multiset_ensures, vstd::multiset::group_multiset_axioms};

/// A total preorder: any two values are comparable, and the order is
/// transitive.
pub trait SortOrder: Sized {
    spec fn precedes(self, other: Self) -> bool;

    proof fn lemma_total(a: Self, b: Self)
        ensures
            a.precedes(b) || b.precedes(a),
    ;

    proof fn lemma_transitive(a: Self, b: Self, c: Self)
        requires
            a.precedes(b),
            b.precedes(c),
        ensures
            a.precedes(c),
    ;

    fn precedes_exec(&self, other: &Self) -> (r: bool)
        ensures
            r == self.precedes(*other),
    ;
}

/// Each element precedes every later one.
pub open spec fn sorted<T: SortOrder>(s: Seq<T>) -> bool {
    forall|i: int, j: int| 0 <= i < j < s.len() ==> (#[trigger] s[i]).precedes(#[trigger] s[j])
}

/// `a` and `b` are tied: each precedes the other.
pub open spec fn tied<T: SortOrder>(a: T, b: T) -> bool {
    a.precedes(b) && b.precedes(a)
}

/// Whether a value is tied with `c`.
pub open spec fn tied_with<T: SortOrder>(c: T) -> spec_fn(T) -> bool {
    |y: T| tied(c, y)
}

proof fn lemma_filter_single<T>(x: T, p: spec_fn(T) -> bool)
    ensures
        seq![x].filter(p) == if p(x) {
            seq![x]
        } else {
            Seq::<T>::empty()
        },
{
    reveal(Seq::filter);
    assert(seq![x].drop_last() =~= Seq::<T>::empty());
    assert(Seq::<T>::empty().filter(p) =~= Seq::<T>::empty());
}

proof fn lemma_filter_none<T>(s: Seq<T>, p: spec_fn(T) -> bool)
    requires
        forall|i: int| 0 <= i < s.len() ==> !p(#[trigger] s[i]),
    ensures
        s.filter(p) == Seq::<T>::empty(),
    decreases s.len(),
{
    reveal(Seq::filter);
    if s.len() > 0 {
        assert forall|i: int| 0 <= i < s.drop_last().len() implies !p(#[trigger] s.drop_last()[i]) by {
            assert(s.drop_last()[i] == s[i]);
        }
        lemma_filter_none(s.drop_last(), p);
        assert(!p(s[s.len() - 1]));
    } else {
        assert(s.filter(p) =~= Seq::<T>::empty());
    }
}

/// Sort `v`, keeping equal elements in their original order: the elements
/// tied with any value come out in the order they came in.
pub fn sort<T: SortOrder>(v: Vec<T>) -> (r: Vec<T>)
    ensures
        sorted(r@),
        r@.to_multiset() == v@.to_multiset(),
        r@.len() == v@.len(),
        forall|c: T| #[trigger] r@.filter(tied_with(c)) == v@.filter(tied_with(c)),
{
    let ghost original = v@;
    let mut input = v;
    let mut out: Vec<T> = Vec::new();
    proof {
        assert forall|c: T| #[trigger] out@.filter(tied_with(c)) == original.skip(input@.len() as int).filter(
            tied_with(c),
        ) by {
            assert(original.skip(input@.len() as int) =~= Seq::<T>::empty());
            assert(out@ =~= Seq::<T>::empty());
            lemma_filter_none(Seq::<T>::empty(), tied_with(c));
        }
    }
    while input.len() > 0
        invariant
            sorted(out@),
            out@.to_multiset().add(input@.to_multiset()) == original.to_multiset(),
            out@.len() + input@.len() == original.len(),
            input@ == original.take(input@.len() as int),
            forall|c: T| #[trigger] out@.filter(tied_with(c)) == original.skip(input@.len() as int).filter(
                tied_with(c),
            ),
        decreases input.len(),
    {
        let ghost before_input = input@;
        let x = input.pop().unwrap();
        assert(before_input == input@.push(x));
        let mut pos: usize = 0;
        while pos < out.len() && !x.precedes_exec(&out[pos])
            invariant
                pos <= out.len(),
                forall|j: int| 0 <= j < pos ==> !x.precedes(#[trigger] out@[j]),
            decreases out.len() - pos,
        {
            pos += 1;
        }
        let ghost before_out = out@;
        out.insert(pos, x);
        proof {
            assert forall|i: int, j: int| 0 <= i < j < out@.len() implies (#[trigger] out@[i]).precedes(
                #[trigger] out@[j],
            ) by {
                if j < pos {
                    assert(out@[i] == before_out[i]);
                    assert(out@[j] == before_out[j]);
                } else if j == pos {
                    assert(out@[i] == before_out[i]);
                    assert(!x.precedes(before_out[i]));
                    T::lemma_total(x, before_out[i]);
                } else if i == pos {
                    assert(out@[j] == before_out[j - 1]);
                    assert(x.precedes(before_out[pos as int]));
                    if j - 1 > pos {
                        T::lemma_transitive(x, before_out[pos as int], before_out[j - 1]);
                    }
                } else if i < pos {
                    assert(out@[i] == before_out[i]);
                    assert(out@[j] == before_out[j - 1]);
                } else {
                    assert(out@[i] == before_out[i - 1]);
                    assert(out@[j] == before_out[j - 1]);
                }
            }
            assert(out@.to_multiset() == before_out.to_multiset().insert(x));
            assert(out@.to_multiset().add(input@.to_multiset()) =~= before_out.to_multiset().add(
                before_input.to_multiset(),
            ));
            let m = before_input.len() as int;
            assert(input@ =~= original.take(m - 1));
            assert(x == original[m - 1]);
            assert(original.skip(m - 1) =~= seq![x] + original.skip(m));
            let front = before_out.take(pos as int);
            let back = before_out.skip(pos as int);
            assert(out@ =~= front + seq![x] + back);
            assert(before_out =~= front + back);
            assert forall|c: T| #[trigger] out@.filter(tied_with(c)) == original.skip(m - 1).filter(
                tied_with(c),
            ) by {
                let p = tied_with(c);
                Seq::filter_distributes_over_add(seq![x], original.skip(m), p);
                Seq::filter_distributes_over_add(front + seq![x], back, p);
                Seq::filter_distributes_over_add(front, seq![x], p);
                Seq::filter_distributes_over_add(front, back, p);
                lemma_filter_single(x, p);
                assert(before_out.filter(p) == original.skip(m).filter(p));
                if p(x) {
                    assert forall|j: int| 0 <= j < front.len() implies !p(#[trigger] front[j]) by {
                        assert(front[j] == before_out[j]);
                        if p(front[j]) {
                            T::lemma_transitive(x, c, front[j]);
                        }
                    }
                    lemma_filter_none(front, p);
                    assert(front.filter(p) + seq![x] + back.filter(p) =~= seq![x] + (front.filter(p)
                        + back.filter(p)));
                } else {
                    assert(front.filter(p) + Seq::<T>::empty() =~= front.filter(p));
                    assert(Seq::<T>::empty() + original.skip(m).filter(p) =~= original.skip(m).filter(p));
                }
            }
        }
    }
    assert(original.skip(0) =~= original);
    assert(input@.to_multiset() =~= Multiset::empty());
    assert(out@.to_multiset().add(input@.to_multiset()) =~= out@.to_multiset());
    out
}

/// Two sequences sorted by the same antisymmetric, reflexive order and
/// holding the same elements are equal.
pub proof fn lemma_sorted_unique_by<A>(a: Seq<A>, b: Seq<A>, le: spec_fn(A, A) -> bool)
    requires
        sorted_by(a, le),
        sorted_by(b, le),
        a.to_multiset() == b.to_multiset(),
        forall|x: A| #[trigger] le(x, x),
        forall|x: A, y: A| #[trigger] le(x, y) && #[trigger] le(y, x) ==> x == y,
    ensures
        a == b,
    decreases a.len(),
{
    a.to_multiset_ensures();
    b.to_multiset_ensures();
    if a.len() == 0 {
        assert(b.len() == 0);
        assert(a =~= b);
    } else {
        assert(b.len() == a.len());
        let x = a[0];
        let y = b[0];
        assert(a.to_multiset().count(y) > 0);
        assert(b.to_multiset().count(x) > 0);
        let iy = choose|i: int| 0 <= i < a.len() && a[i] == y;
        let ix = choose|i: int| 0 <= i < b.len() && b[i] == x;
        if iy > 0 {
            assert(le(a[0], a[iy]));
        }
        if ix > 0 {
            assert(le(b[0], b[ix]));
        }
        assert(le(x, y));
        assert(le(y, x));
        assert(x == y);
        assert(a.drop_first() =~= a.remove(0));
        assert(b.drop_first() =~= b.remove(0));
        assert(a.drop_first().to_multiset() == a.to_multiset().remove(x));
        assert(b.drop_first().to_multiset() == b.to_multiset().remove(y));
        assert(sorted_by(a.drop_first(), le)) by {
            assert forall|i: int, j: int| 0 <= i < j < a.drop_first().len() implies #[trigger] le(
                a.drop_first()[i],
                a.drop_first()[j],
            ) by {
                assert(a.drop_first()[i] == a[i + 1]);
                assert(a.drop_first()[j] == a[j + 1]);
            }
        }
        assert(sorted_by(b.drop_first(), le)) by {
            assert forall|i: int, j: int| 0 <= i < j < b.drop_first().len() implies #[trigger] le(
                b.drop_first()[i],
                b.drop_first()[j],
            ) by {
                assert(b.drop_first()[i] == b[i + 1]);
                assert(b.drop_first()[j] == b[j + 1]);
            }
        }
        lemma_sorted_unique_by(a.drop_first(), b.drop_first(), le);
        assert(a =~= seq![x] + a.drop_first());
        assert(b =~= seq![y] + b.drop_first());
    }
}

/// Mapping preserves equality of element counts.
pub proof fn lemma_map_multiset<A, B>(a: Seq<A>, b: Seq<A>, f: spec_fn(A) -> B)
    requires
        a.to_multiset() == b.to_multiset(),
    ensures
        a.map_values(f).to_multiset() == b.map_values(f).to_multiset(),
    decreases a.len(),
{
    a.to_multiset_ensures();
    b.to_multiset_ensures();
    if a.len() == 0 {
        assert(b.len() == 0);
        assert(a.map_values(f) =~= b.map_values(f));
    } else {
        let x = a.last();
        assert(b.to_multiset().count(x) > 0);
        let i = choose|i: int| 0 <= i < b.len() && b[i] == x;
        let a2 = a.drop_last();
        let b2 = b.remove(i);
        assert(a =~= a2.push(x));
        assert(a2.to_multiset() == a.to_multiset().remove(x));
        assert(b2.to_multiset() == b.to_multiset().remove(x));
        lemma_map_multiset(a2, b2, f);
        assert(a.map_values(f) =~= a2.map_values(f).push(f(x)));
        assert(b.map_values(f).remove(i) =~= b2.map_values(f));
        assert(b.map_values(f)[i] == f(x));
        assert(b.map_values(f).remove(i).to_multiset() == b.map_values(f).to_multiset().remove(
            f(x),
        ));
        assert(b.map_values(f).to_multiset().count(f(x)) > 0) by {
            b.map_values(f).to_multiset_ensures();
            assert(b.map_values(f).contains(f(x)));
        }
        assert(b.map_values(f).to_multiset() =~= b.map_values(f).to_multiset().remove(f(x)).insert(
            f(x),
        ));
    }
}

impl SortOrder for String {
    open spec fn precedes(self, other: Self) -> bool {
        chars_le(self@, other@)
    }

    proof fn lemma_total(a: Self, b: Self) {
        lemma_chars_le_total(a@, b@);
    }

    proof fn lemma_transitive(a: Self, b: Self, c: Self) {
        lemma_chars_le_transitive(a@, b@, c@);
    }

    fn precedes_exec(&self, other: &Self) -> (r: bool) {
        str_le(self.as_str(), other.as_str())
    }
}

/// The character sequences of strings.
pub open spec fn string_views(s: Seq<String>) -> Seq<Seq<char>> {
    s.map_values(|x: String| x@)
}

/// The code point order on character sequences is a total order.
pub proof fn lemma_chars_le_total_ordering()
    ensures
        vstd::relations::total_ordering(|a: Seq<char>, b: Seq<char>| chars_le(a, b)),
{
    let le = |a: Seq<char>, b: Seq<char>| chars_le(a, b);
    assert forall|a: Seq<char>| #[trigger] le(a, a) by {
        lemma_chars_le_reflexive(a);
    }
    assert forall|a: Seq<char>, b: Seq<char>| #[trigger] le(a, b) && #[trigger] le(b, a) implies a
        == b by {
        lemma_chars_le_antisymmetric(a, b);
    }
    assert forall|a: Seq<char>, b: Seq<char>, c: Seq<char>| #[trigger] le(a, b) && #[trigger] le(
        b,
        c,
    ) implies le(a, c) by {
        lemma_chars_le_transitive(a, b, c);
    }
    assert forall|a: Seq<char>, b: Seq<char>| #[trigger] le(a, b) || #[trigger] le(b, a) by {
        lemma_chars_le_total(a, b);
    }
}

/// The character sequences in code point order.
pub open spec fn sorted_chars(s: Seq<Seq<char>>) -> Seq<Seq<char>> {
    s.sort_by(|a: Seq<char>, b: Seq<char>| chars_le(a, b))
}

/// Sort strings in code point order.
pub fn sort_strings(v: Vec<String>) -> (r: Vec<String>)
    ensures
        string_views(r@) == sorted_chars(string_views(v@)),
{
    let r = sort(v);
    proof {
        let le = |a: Seq<char>, b: Seq<char>| chars_le(a, b);
        lemma_chars_le_total_ordering();
        let views = string_views(v@);
        views.lemma_sort_by_ensures(le);
        lemma_map_multiset(r@, v@, |x: String| x@);
        assert(vstd::relations::sorted_by(string_views(r@), le)) by {
            assert forall|i: int, j: int| 0 <= i < j < string_views(r@).len() implies #[trigger] le(
                string_views(r@)[i],
                string_views(r@)[j],
            ) by {
                assert(r@[i].precedes(r@[j]));
            }
        }
        lemma_sorted_unique_by(string_views(r@), views.sort_by(le), le);
    }
    r
}

} // verus!
