//! Gathering the findings of a rule over a list of records.
use vstd::prelude::*;

verus! {

/// The findings `f` gives for each element of `s`, concatenated in order.
pub open spec fn collect<A, B>(s: Seq<A>, f: spec_fn(A) -> Seq<B>) -> Seq<B>
    decreases s.len(),
{
    if s.len() == 0 {
        Seq::empty()
    } else {
        collect(s.drop_last(), f) + f(s.last())
    }
}

/// One more element adds its findings at the end.
pub proof fn lemma_collect_step<A, B>(s: Seq<A>, f: spec_fn(A) -> Seq<B>, i: int)
    requires
        0 <= i < s.len(),
    ensures
        collect(s.take(i + 1), f) == collect(s.take(i), f) + f(s[i]),
{
    assert(s.take(i + 1).drop_last() =~= s.take(i));
    assert(s.take(i + 1).last() == s[i]);
}

/// Taking the whole list is the list.
pub proof fn lemma_take_all<A>(s: Seq<A>)
    ensures
        s.take(s.len() as int) == s,
{
    assert(s.take(s.len() as int) =~= s);
}


/// The findings over one element.
pub proof fn lemma_collect_one<A, B>(a: A, f: spec_fn(A) -> Seq<B>)
    ensures
        collect(seq![a], f) == f(a),
{
    let s = seq![a];
    assert(s.drop_last() =~= Seq::<A>::empty());
    assert(collect(s.drop_last(), f) == Seq::<B>::empty());
    assert(s.last() == a);
    assert(collect(s, f) == collect(s.drop_last(), f) + f(s.last()));
    assert(Seq::<B>::empty() + f(a) =~= f(a));
}

/// The findings over two elements.
pub proof fn lemma_collect_two<A, B>(a: A, b: A, f: spec_fn(A) -> Seq<B>)
    ensures
        collect(seq![a, b], f) == f(a) + f(b),
{
    assert(seq![a, b].drop_last() =~= seq![a]);
    lemma_collect_one(a, f);
}

/// Every finding comes from some element.
pub proof fn lemma_collect_member<A, B>(s: Seq<A>, f: spec_fn(A) -> Seq<B>, k: int)
    requires
        0 <= k < collect(s, f).len(),
    ensures
        exists|m: int, t: int|
            0 <= m < s.len() && 0 <= t < f(s[m]).len() && #[trigger] f(s[m])[t] == collect(s, f)[k],
    decreases s.len(),
{
    let p = collect(s.drop_last(), f);
    if k < p.len() {
        lemma_collect_member(s.drop_last(), f, k);
        let (m, t) = choose|m: int, t: int|
            0 <= m < s.drop_last().len() && 0 <= t < f(s.drop_last()[m]).len() && #[trigger] f(
                s.drop_last()[m],
            )[t] == p[k];
        assert(s[m] == s.drop_last()[m]);
        assert(f(s[m])[t] == collect(s, f)[k]);
    } else {
        let m = s.len() - 1;
        let t = k - p.len();
        assert(f(s[m])[t] == collect(s, f)[k]);
    }
}

/// Every finding of every element is among the findings.
pub proof fn lemma_collect_contains<A, B>(s: Seq<A>, f: spec_fn(A) -> Seq<B>, m: int, t: int)
    requires
        0 <= m < s.len(),
        0 <= t < f(s[m]).len(),
    ensures
        exists|k: int| 0 <= k < collect(s, f).len() && #[trigger] collect(s, f)[k] == f(s[m])[t],
    decreases s.len(),
{
    let p = collect(s.drop_last(), f);
    if m < s.len() - 1 {
        assert(s[m] == s.drop_last()[m]);
        lemma_collect_contains(s.drop_last(), f, m, t);
        let k = choose|k: int| 0 <= k < p.len() && #[trigger] p[k] == f(s.drop_last()[m])[t];
        assert(collect(s, f)[k] == p[k]);
    } else {
        assert(collect(s, f)[p.len() + t] == f(s[m])[t]);
    }
}

} // verus!
