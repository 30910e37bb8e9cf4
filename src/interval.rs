//! Half-open address ranges and the merge of a set of them.
use vstd::prelude::*;

verus! {

/// A half-open range `[start, end)` of physical addresses.
///
/// The end is kept in 128 bits so that a range that reaches the top of the
/// 64-bit address space is represented exactly.
#[derive(Clone, Copy, Debug, PartialEq, Eq, Structural)]
pub struct Span {
    pub start: u64,
    pub end: u128,
}

impl Span {
    /// A span is valid when it does not end before it starts.
    pub open spec fn wf(self) -> bool {
        self.start <= self.end
    }

    /// `x` lies inside the half-open range.
    pub open spec fn holds(self, x: int) -> bool {
        self.start <= x && x < self.end
    }

    /// `x` lies inside the closed range `[start, end]`.
    pub open spec fn touches(self, x: int) -> bool {
        self.start <= x && x <= self.end
    }

    pub open spec fn spec_overlaps(self, other: Span) -> bool {
        self.start < other.end && other.start < self.end
    }

    pub open spec fn spec_contains(self, other: Span) -> bool {
        self.start <= other.start && other.end <= self.end
    }

    /// The order used to sort spans: by start, then by end.
    pub open spec fn le(self, other: Span) -> bool {
        self.start < other.start || (self.start == other.start && self.end <= other.end)
    }

    /// Builds the span `[start, start + length)`.
    pub fn from_start_length(start: u64, length: u64) -> (r: Span)
        ensures
            r.start == start,
            r.end == start + length,
            r.wf(),
    {
        Span { start, end: start as u128 + length as u128 }
    }
}

/// Anything that describes a range of physical addresses.
pub trait Interval {
    spec fn spec_span(&self) -> Span;

    /// First address of the range.
    fn start(&self) -> (r: u64)
        ensures
            r == self.spec_span().start,
    ;

    /// One past the last address of the range.
    fn end(&self) -> (r: u128)
        ensures
            r == self.spec_span().end,
    ;

    /// The range as a plain span.
    fn span(&self) -> (r: Span)
        ensures
            r == self.spec_span(),
    {
        Span { start: self.start(), end: self.end() }
    }

    /// Number of addresses in the range.
    fn length(&self) -> (r: u128)
        requires
            self.spec_span().wf(),
        ensures
            r == self.spec_span().end - self.spec_span().start,
    {
        self.end() - self.start() as u128
    }

    /// The two ranges share at least one address.
    fn overlaps(&self, other: &Self) -> (r: bool)
        ensures
            r == self.spec_span().spec_overlaps(other.spec_span()),
    {
        (self.start() as u128) < other.end() && (other.start() as u128) < self.end()
    }

    /// This range includes the whole of `other`.
    fn contains(&self, other: &Self) -> (r: bool)
        ensures
            r == self.spec_span().spec_contains(other.spec_span()),
    {
        self.start() <= other.start() && other.end() <= self.end()
    }
}

impl Interval for Span {
    open spec fn spec_span(&self) -> Span {
        *self
    }

    fn start(&self) -> (r: u64) {
        self.start
    }

    fn end(&self) -> (r: u128) {
        self.end
    }
}

/// Overlap is symmetric: `a` overlaps `b` exactly when `b` overlaps `a`.
pub proof fn lemma_overlap_symmetric(a: Span, b: Span)
    ensures
        a.spec_overlaps(b) == b.spec_overlaps(a),
{
}


/// Every span of `s` is valid.
pub open spec fn all_wf(s: Seq<Span>) -> bool {
    forall|k: int| 0 <= k < s.len() ==> (#[trigger] s[k]).wf()
}

/// The spans of `m` are valid, in increasing order, and neither overlap nor
/// touch: each one ends strictly before the next one starts.
pub open spec fn separated(m: Seq<Span>) -> bool {
    &&& all_wf(m)
    &&& forall|i: int, j: int| 0 <= i < j < m.len() ==> (#[trigger] m[i]).end < (#[trigger] m[j]).start
}

/// Some span of `m` contains `t`.
#[verifier::opaque]
pub open spec fn contained_in(m: Seq<Span>, t: Span) -> bool {
    exists|i: int| 0 <= i < m.len() && (#[trigger] m[i]).spec_contains(t)
}

/// Some span of `s` holds the address `x`.
#[verifier::opaque]
pub open spec fn union_holds(s: Seq<Span>, x: int) -> bool {
    exists|k: int| 0 <= k < s.len() && (#[trigger] s[k]).holds(x)
}

/// Some span of `s` starts at `x`.
#[verifier::opaque]
pub open spec fn starts_at(s: Seq<Span>, x: int) -> bool {
    exists|k: int| 0 <= k < s.len() && (#[trigger] s[k]).start == x
}

/// Some span of `s` ends at `x`.
#[verifier::opaque]
pub open spec fn ends_at(s: Seq<Span>, x: int) -> bool {
    exists|k: int| 0 <= k < s.len() && (#[trigger] s[k]).end == x
}

/// `m` is the merge of `s`: a separated list of spans such that every span
/// of `s` lies inside one of them, and each of them starts where a span of
/// `s` starts, ends where a span of `s` ends, and holds only addresses that
/// some span of `s` holds.
pub open spec fn is_merge_of(m: Seq<Span>, s: Seq<Span>) -> bool {
    &&& separated(m)
    &&& forall|k: int| 0 <= k < s.len() ==> contained_in(m, #[trigger] s[k])
    &&& forall|i: int| 0 <= i < m.len() ==> starts_at(s, (#[trigger] m[i]).start as int)
    &&& forall|i: int| 0 <= i < m.len() ==> ends_at(s, (#[trigger] m[i]).end as int)
    &&& forall|i: int, x: int| 0 <= i < m.len() && #[trigger] m[i].holds(x) ==> union_holds(s, x)
}

/// `s` is sorted by start, then by end.
pub open spec fn sorted(s: Seq<Span>) -> bool {
    forall|a: int, b: int| 0 <= a < b < s.len() ==> (#[trigger] s[a]).le(#[trigger] s[b])
}

/// Every element of `a` occurs in `b`.
#[verifier::opaque]
pub open spec fn occurs_in(a: Seq<Span>, b: Seq<Span>) -> bool {
    forall|k: int| 0 <= k < a.len() ==> b.contains(#[trigger] a[k])
}

/// Sorts spans by start, then by end.
fn sort_spans(spans: &Vec<Span>) -> (r: Vec<Span>)
    ensures
        sorted(r@),
        occurs_in(r@, spans@),
        occurs_in(spans@, r@),
{
    let mut out: Vec<Span> = Vec::new();
    let mut i: usize = 0;
    proof {
        reveal(occurs_in);
    }
    while i < spans.len()
        invariant
            i <= spans.len(),
            sorted(out@),
            occurs_in(out@, spans@),
            forall|k: int| 0 <= k < i ==> out@.contains(#[trigger] spans@[k]),
        decreases spans.len() - i,
    {
        let x = spans[i];
        proof {
            reveal(occurs_in);
        }
        let mut pos: usize = 0;
        while pos < out.len() && (out[pos].start < x.start || (out[pos].start == x.start
            && out[pos].end <= x.end))
            invariant
                pos <= out.len(),
                forall|a: int| 0 <= a < pos ==> (#[trigger] out@[a]).le(x),
            decreases out.len() - pos,
        {
            pos = pos + 1;
        }
        let ghost old_out = out@;
        out.insert(pos, x);
        assert(out@ == old_out.insert(pos as int, x));
        assert forall|a: int, b: int| 0 <= a < b < out@.len() implies (#[trigger] out@[a]).le(
            #[trigger] out@[b],
        ) by {
            if b < pos {
            } else if b == pos {
            } else if a < pos {
                assert(old_out[a].le(x));
                assert(x.le(old_out[pos as int]));
            } else if a == pos {
                assert(x.le(old_out[pos as int]));
            } else {
            }
        }
        assert forall|k: int| 0 <= k < out@.len() implies spans@.contains(#[trigger] out@[k]) by {
            if k < pos {
                assert(old_out.contains(old_out[k]));
            } else if k == pos {
                assert(spans@[i as int] == x);
            } else {
                assert(old_out.contains(old_out[k - 1]));
            }
        }
        assert forall|k: int| 0 <= k < i + 1 implies out@.contains(#[trigger] spans@[k]) by {
            if k < i {
                assert(old_out.contains(spans@[k]));
                let j = choose|j: int| 0 <= j < old_out.len() && old_out[j] == spans@[k];
                if j < pos {
                    assert(out@[j] == spans@[k]);
                } else {
                    assert(out@[j + 1] == spans@[k]);
                }
            } else {
                assert(out@[pos as int] == spans@[k]);
            }
        }
        i = i + 1;
    }
    proof {
        reveal(occurs_in);
    }
    out
}


/// A merge of `a` is a merge of `b` when both hold the same spans.
proof fn lemma_merge_of_same_spans(m: Seq<Span>, a: Seq<Span>, b: Seq<Span>)
    requires
        is_merge_of(m, a),
        occurs_in(a, b),
        occurs_in(b, a),
    ensures
        is_merge_of(m, b),
{
    assert forall|k: int| 0 <= k < b.len() implies contained_in(m, #[trigger] b[k]) by {
        lemma_contained_in_moves(m, a, b, k);
    }
    assert forall|i: int| 0 <= i < m.len() implies starts_at(b, (#[trigger] m[i]).start as int) by {
        lemma_starts_at_moves(a, b, m[i].start as int);
    }
    assert forall|i: int| 0 <= i < m.len() implies ends_at(b, (#[trigger] m[i]).end as int) by {
        lemma_ends_at_moves(a, b, m[i].end as int);
    }
    assert forall|i: int, x: int| 0 <= i < m.len() && #[trigger] m[i].holds(x) implies union_holds(
        b,
        x,
    ) by {
        lemma_union_holds_moves(a, b, x);
    }
}

proof fn lemma_contained_in_moves(m: Seq<Span>, a: Seq<Span>, b: Seq<Span>, k: int)
    requires
        forall|j: int| 0 <= j < a.len() ==> contained_in(m, #[trigger] a[j]),
        occurs_in(b, a),
        0 <= k < b.len(),
    ensures
        contained_in(m, b[k]),
{
    reveal(occurs_in);
    assert(a.contains(b[k]));
    let j = choose|j: int| 0 <= j < a.len() && a[j] == b[k];
    assert(contained_in(m, a[j]));
}

proof fn lemma_starts_at_moves(a: Seq<Span>, b: Seq<Span>, x: int)
    requires
        starts_at(a, x),
        occurs_in(a, b),
    ensures
        starts_at(b, x),
{
    reveal(occurs_in);
    reveal(starts_at);
    let k = choose|k: int| 0 <= k < a.len() && (#[trigger] a[k]).start == x;
    assert(b.contains(a[k]));
    let j = choose|j: int| 0 <= j < b.len() && b[j] == a[k];
    assert(b[j].start == x);
}

proof fn lemma_ends_at_moves(a: Seq<Span>, b: Seq<Span>, x: int)
    requires
        ends_at(a, x),
        occurs_in(a, b),
    ensures
        ends_at(b, x),
{
    reveal(occurs_in);
    reveal(ends_at);
    let k = choose|k: int| 0 <= k < a.len() && (#[trigger] a[k]).end == x;
    assert(b.contains(a[k]));
    let j = choose|j: int| 0 <= j < b.len() && b[j] == a[k];
    assert(b[j].end == x);
}

proof fn lemma_union_holds_moves(a: Seq<Span>, b: Seq<Span>, x: int)
    requires
        union_holds(a, x),
        occurs_in(a, b),
    ensures
        union_holds(b, x),
{
    reveal(occurs_in);
    reveal(union_holds);
    let k = choose|k: int| 0 <= k < a.len() && (#[trigger] a[k]).holds(x);
    assert(b.contains(a[k]));
    let j = choose|j: int| 0 <= j < b.len() && b[j] == a[k];
    assert(b[j].holds(x));
}

proof fn lemma_contained_in_intro(m: Seq<Span>, i: int, t: Span)
    requires
        0 <= i < m.len(),
        m[i].spec_contains(t),
    ensures
        contained_in(m, t),
{
    reveal(contained_in);
}

proof fn lemma_contained_in_push(m: Seq<Span>, y: Span, t: Span)
    requires
        contained_in(m, t),
    ensures
        contained_in(m.push(y), t),
{
    reveal(contained_in);
    let i = choose|i: int| 0 <= i < m.len() && (#[trigger] m[i]).spec_contains(t);
    assert(m.push(y)[i] == m[i]);
}

proof fn lemma_witness_intro(s: Seq<Span>, k: int)
    requires
        0 <= k < s.len(),
    ensures
        starts_at(s, s[k].start as int),
        ends_at(s, s[k].end as int),
        forall|x: int| s[k].holds(x) ==> union_holds(s, x),
{
    reveal(starts_at);
    reveal(ends_at);
    reveal(union_holds);
}

proof fn lemma_prefix_occurs(s: Seq<Span>, i: int)
    requires
        0 <= i < s.len(),
    ensures
        occurs_in(s.subrange(0, i), s.subrange(0, i + 1)),
{
    reveal(occurs_in);
    let pre = s.subrange(0, i);
    let post = s.subrange(0, i + 1);
    assert forall|k: int| 0 <= k < pre.len() implies post.contains(#[trigger] pre[k]) by {
        assert(post[k] == pre[k]);
    }
}

/// What the merge loop keeps of the spans it has flushed to `out`, the span
/// `cur` it is growing, and the first spans `pre` of the sorted input.
pub open spec fn merge_progress(out: Seq<Span>, cur: Span, pre: Seq<Span>) -> bool {
    &&& separated(out)
    &&& cur.wf()
    &&& forall|j: int| 0 <= j < out.len() ==> (#[trigger] out[j]).end < cur.start
    &&& forall|k: int|
        0 <= k < pre.len() ==> contained_in(out, #[trigger] pre[k]) || cur.spec_contains(pre[k])
    &&& forall|j: int| 0 <= j < out.len() ==> starts_at(pre, (#[trigger] out[j]).start as int)
    &&& forall|j: int| 0 <= j < out.len() ==> ends_at(pre, (#[trigger] out[j]).end as int)
    &&& forall|j: int, x: int| 0 <= j < out.len() && #[trigger] out[j].holds(x) ==> union_holds(pre, x)
    &&& starts_at(pre, cur.start as int)
    &&& ends_at(pre, cur.end as int)
    &&& forall|x: int| cur.holds(x) ==> union_holds(pre, x)
}

/// The facts about `out` carry over from a prefix of the input to a longer one.
proof fn lemma_out_grows(out: Seq<Span>, pre: Seq<Span>, post: Seq<Span>)
    requires
        occurs_in(pre, post),
        forall|j: int| 0 <= j < out.len() ==> starts_at(pre, (#[trigger] out[j]).start as int),
        forall|j: int| 0 <= j < out.len() ==> ends_at(pre, (#[trigger] out[j]).end as int),
        forall|j: int, x: int| 0 <= j < out.len() && #[trigger] out[j].holds(x) ==> union_holds(pre, x),
    ensures
        forall|j: int| 0 <= j < out.len() ==> starts_at(post, (#[trigger] out[j]).start as int),
        forall|j: int| 0 <= j < out.len() ==> ends_at(post, (#[trigger] out[j]).end as int),
        forall|j: int, x: int| 0 <= j < out.len() && #[trigger] out[j].holds(x) ==> union_holds(post, x),
{
    assert forall|j: int| 0 <= j < out.len() implies starts_at(post, (#[trigger] out[j]).start as int) by {
        lemma_starts_at_moves(pre, post, out[j].start as int);
    }
    assert forall|j: int| 0 <= j < out.len() implies ends_at(post, (#[trigger] out[j]).end as int) by {
        lemma_ends_at_moves(pre, post, out[j].end as int);
    }
    assert forall|j: int, x: int| 0 <= j < out.len() && #[trigger] out[j].holds(x) implies union_holds(post, x) by {
        lemma_union_holds_moves(pre, post, x);
    }
}

/// Flushing `cur` to `out` keeps the facts, with `cur` now the last of `out`.
proof fn lemma_flush(out: Seq<Span>, cur: Span, pre: Seq<Span>)
    requires
        merge_progress(out, cur, pre),
    ensures
        separated(out.push(cur)),
        forall|k: int| 0 <= k < pre.len() ==> contained_in(out.push(cur), #[trigger] pre[k]),
        forall|j: int| 0 <= j < out.push(cur).len() ==> starts_at(pre, (#[trigger] out.push(cur)[j]).start as int),
        forall|j: int| 0 <= j < out.push(cur).len() ==> ends_at(pre, (#[trigger] out.push(cur)[j]).end as int),
        forall|j: int, x: int| 0 <= j < out.push(cur).len() && #[trigger] out.push(cur)[j].holds(x) ==> union_holds(pre, x),
{
    let o = out.push(cur);
    assert(o[out.len() as int] == cur);
    assert forall|k: int| 0 <= k < pre.len() implies contained_in(o, #[trigger] pre[k]) by {
        if contained_in(out, pre[k]) {
            lemma_contained_in_push(out, cur, pre[k]);
        } else {
            lemma_contained_in_intro(o, out.len() as int, pre[k]);
        }
    }
    assert forall|j: int| 0 <= j < o.len() implies starts_at(pre, (#[trigger] o[j]).start as int) by {
        if j < out.len() {
            assert(o[j] == out[j]);
        }
    }
    assert forall|j: int| 0 <= j < o.len() implies ends_at(pre, (#[trigger] o[j]).end as int) by {
        if j < out.len() {
            assert(o[j] == out[j]);
        }
    }
    assert forall|j: int, x: int| 0 <= j < o.len() && #[trigger] o[j].holds(x) implies union_holds(pre, x) by {
        if j < out.len() {
            assert(o[j] == out[j]);
        }
    }
    assert forall|i: int, j: int| 0 <= i < j < o.len() implies (#[trigger] o[i]).end < (#[trigger] o[j]).start by {
        if j < out.len() {
            assert(o[i] == out[i]);
            assert(o[j] == out[j]);
        } else {
            assert(o[i] == out[i]);
        }
    }
    assert forall|k: int| 0 <= k < o.len() implies (#[trigger] o[k]).wf() by {
        if k < out.len() {
            assert(o[k] == out[k]);
        }
    }
}

/// Merges a list of valid spans into the minimal sorted list of spans that
/// neither overlap nor touch: spans that overlap or touch are joined.
pub fn merge_intervals(spans: &Vec<Span>) -> (r: Vec<Span>)
    requires
        all_wf(spans@),
    ensures
        is_merge_of(r@, spans@),
        spans@.len() == 0 <==> r@.len() == 0,
{
    let mut out: Vec<Span> = Vec::new();
    if spans.len() == 0 {
        return out;
    }
    let srt = sort_spans(spans);
    proof {
        reveal(occurs_in);
        assert forall|k: int| 0 <= k < srt@.len() implies (#[trigger] srt@[k]).wf() by {
            assert(spans@.contains(srt@[k]));
        }
        assert(srt@.contains(spans@[0]));
    }
    let mut cur = srt[0];
    let mut i: usize = 1;
    proof {
        let first = srt@.subrange(0, 1);
        assert(first[0] == cur);
        lemma_witness_intro(first, 0);
        assert forall|k: int| 0 <= k < first.len() implies contained_in(out@, #[trigger] first[k]) || cur.spec_contains(first[k]) by {
            assert(first[k] == cur);
        }
    }
    while i < srt.len()
        invariant
            1 <= i <= srt@.len(),
            sorted(srt@),
            all_wf(srt@),
            merge_progress(out@, cur, srt@.subrange(0, i as int)),
        decreases srt@.len() - i,
    {
        let next = srt[i];
        let ghost pre = srt@.subrange(0, i as int);
        let ghost post = srt@.subrange(0, i + 1);
        proof {
            assert(post[i as int] == next);
            lemma_prefix_occurs(srt@, i as int);
            lemma_witness_intro(post, i as int);
            assert(cur.start <= next.start) by {
                reveal(starts_at);
                let k = choose|k: int| 0 <= k < pre.len() && (#[trigger] pre[k]).start == cur.start;
                assert(srt@[k].le(srt@[i as int]));
            }
        }
        if (next.start as u128) <= cur.end {
            let ghost old_cur = cur;
            let new_end = if next.end > cur.end {
                next.end
            } else {
                cur.end
            };
            cur = Span { start: cur.start, end: new_end };
            proof {
                lemma_out_grows(out@, pre, post);
                lemma_starts_at_moves(pre, post, cur.start as int);
                if next.end <= old_cur.end {
                    lemma_ends_at_moves(pre, post, cur.end as int);
                }
                assert forall|x: int| cur.holds(x) implies union_holds(post, x) by {
                    if x < old_cur.end {
                        assert(old_cur.holds(x));
                        lemma_union_holds_moves(pre, post, x);
                    } else {
                        assert(post[i as int].holds(x));
                    }
                }
                assert forall|k: int| 0 <= k < post.len() implies contained_in(out@, #[trigger] post[k]) || cur.spec_contains(post[k]) by {
                    if k < i {
                        assert(post[k] == pre[k]);
                    }
                }
            }
        } else {
            proof {
                lemma_flush(out@, cur, pre);
            }
            out.push(cur);
            cur = next;
            proof {
                lemma_out_grows(out@, pre, post);
                assert forall|k: int| 0 <= k < post.len() implies contained_in(out@, #[trigger] post[k]) || cur.spec_contains(post[k]) by {
                    if k < i {
                        assert(post[k] == pre[k]);
                    }
                }
            }
        }
        i = i + 1;
    }
    proof {
        assert(srt@.subrange(0, i as int) == srt@);
        lemma_flush(out@, cur, srt@);
    }
    out.push(cur);
    proof {
        lemma_merge_of_same_spans(out@, srt@, spans@);
    }
    out
}


/// Merge completeness: every span of the input lies inside exactly one span
/// of its merge.
pub proof fn lemma_merge_complete(s: Seq<Span>, m: Seq<Span>, k: int)
    requires
        all_wf(s),
        is_merge_of(m, s),
        0 <= k < s.len(),
    ensures
        exists|i: int|
            0 <= i < m.len() && (#[trigger] m[i]).spec_contains(s[k]) && forall|j: int|
                0 <= j < m.len() && (#[trigger] m[j]).spec_contains(s[k]) ==> j == i,
{
    reveal(contained_in);
    assert(contained_in(m, s[k]));
    let i = choose|i: int| 0 <= i < m.len() && (#[trigger] m[i]).spec_contains(s[k]);
    assert(s[k].wf());
    assert forall|j: int| 0 <= j < m.len() && (#[trigger] m[j]).spec_contains(s[k]) implies j == i by {
        if j < i {
            assert(m[j].end < m[i].start);
        } else if j > i {
            assert(m[i].end < m[j].start);
        }
    }
}

/// In a separated list, the only span containing `l[k]` is `l[k]` itself.
proof fn lemma_separated_contains_only_self(l: Seq<Span>, g: int, k: int)
    requires
        separated(l),
        0 <= g < l.len(),
        0 <= k < l.len(),
        l[g].spec_contains(l[k]),
    ensures
        g == k,
{
    if g < k {
        assert(l[g].end < l[k].start);
        assert(l[k].wf());
    } else if g > k {
        assert(l[k].end < l[g].start);
        assert(l[k].wf());
    }
}

proof fn lemma_choose_start(l: Seq<Span>, x: int) -> (k: int)
    requires
        starts_at(l, x),
    ensures
        0 <= k < l.len() && l[k].start == x,
{
    reveal(starts_at);
    choose|k: int| 0 <= k < l.len() && (#[trigger] l[k]).start == x
}

proof fn lemma_choose_end(l: Seq<Span>, x: int) -> (k: int)
    requires
        ends_at(l, x),
    ensures
        0 <= k < l.len() && l[k].end == x,
{
    reveal(ends_at);
    choose|k: int| 0 <= k < l.len() && (#[trigger] l[k]).end == x
}

proof fn lemma_choose_holder(l: Seq<Span>, x: int) -> (k: int)
    requires
        union_holds(l, x),
    ensures
        0 <= k < l.len() && l[k].holds(x),
{
    reveal(union_holds);
    choose|k: int| 0 <= k < l.len() && (#[trigger] l[k]).holds(x)
}

proof fn lemma_choose_container(m: Seq<Span>, t: Span) -> (i: int)
    requires
        contained_in(m, t),
    ensures
        0 <= i < m.len() && m[i].spec_contains(t),
{
    reveal(contained_in);
    choose|i: int| 0 <= i < m.len() && (#[trigger] m[i]).spec_contains(t)
}

/// A span of the merge of a separated list is one of the list's spans.
proof fn lemma_merge_of_separated_member(l: Seq<Span>, m: Seq<Span>, i: int)
    requires
        separated(l),
        is_merge_of(m, l),
        0 <= i < m.len(),
    ensures
        l.contains(m[i]),
{
    let k1 = lemma_choose_start(l, m[i].start as int);
    let k2 = lemma_choose_end(l, m[i].end as int);
    assert(m[i].wf());
    assert(l[k1].wf());
    assert(l[k2].wf());
    let a = lemma_choose_container(m, l[k1]);
    if a < i {
        assert(m[a].end < m[i].start);
    } else if a > i {
        assert(m[i].end < m[a].start);
    }
    if k1 < k2 {
        assert(l[k1].end < l[k2].start);
        let x = l[k1].end as int;
        assert(m[i].holds(x));
        let k = lemma_choose_holder(l, x);
        if k < k1 {
            assert(l[k].end < l[k1].start);
        } else if k > k1 {
            assert(l[k1].end < l[k].start);
        }
    } else if k1 > k2 {
        assert(l[k2].end < l[k1].start);
    }
    assert(l[k1] == m[i]);
}

/// Two lists whose starts strictly increase and that hold the same spans are
/// the same list.
proof fn lemma_strictly_sorted_same_spans(a: Seq<Span>, b: Seq<Span>)
    requires
        separated(a),
        separated(b),
        forall|i: int| 0 <= i < a.len() ==> b.contains(#[trigger] a[i]),
        forall|j: int| 0 <= j < b.len() ==> a.contains(#[trigger] b[j]),
    ensures
        a == b,
    decreases a.len(),
{
    if a.len() == 0 {
        if b.len() > 0 {
            assert(a.contains(b[0]));
        }
        assert(a =~= b);
    } else {
        assert(b.contains(a[0]));
        let j = choose|j: int| 0 <= j < b.len() && b[j] == a[0];
        assert(a.contains(b[0]));
        let i = choose|i: int| 0 <= i < a.len() && a[i] == b[0];
        if i > 0 {
            assert(a[0].end < a[i].start);
            assert(a[0].wf());
        }
        if j > 0 {
            assert(b[0].end < b[j].start);
            assert(b[0].wf());
        }
        assert(a[0] == b[0]);
        let ta = a.subrange(1, a.len() as int);
        let tb = b.subrange(1, b.len() as int);
        assert forall|x: int| 0 <= x < ta.len() implies tb.contains(#[trigger] ta[x]) by {
            assert(ta[x] == a[x + 1]);
            assert(b.contains(a[x + 1]));
            let y = choose|y: int| 0 <= y < b.len() && b[y] == a[x + 1];
            if y == 0 {
                assert(a[0].end < a[x + 1].start);
                assert(a[0].wf());
            }
            assert(tb[y - 1] == b[y]);
        }
        assert forall|y: int| 0 <= y < tb.len() implies ta.contains(#[trigger] tb[y]) by {
            assert(tb[y] == b[y + 1]);
            assert(a.contains(b[y + 1]));
            let x = choose|x: int| 0 <= x < a.len() && a[x] == b[y + 1];
            if x == 0 {
                assert(b[0].end < b[y + 1].start);
                assert(b[0].wf());
            }
            assert(ta[x - 1] == a[x]);
        }
        assert forall|p: int, q: int| 0 <= p < q < ta.len() implies (#[trigger] ta[p]).end < (
        #[trigger] ta[q]).start by {
            assert(ta[p] == a[p + 1] && ta[q] == a[q + 1]);
        }
        assert forall|p: int, q: int| 0 <= p < q < tb.len() implies (#[trigger] tb[p]).end < (
        #[trigger] tb[q]).start by {
            assert(tb[p] == b[p + 1] && tb[q] == b[q + 1]);
        }
        assert forall|p: int| 0 <= p < ta.len() implies (#[trigger] ta[p]).wf() by {
            assert(ta[p] == a[p + 1]);
        }
        assert forall|p: int| 0 <= p < tb.len() implies (#[trigger] tb[p]).wf() by {
            assert(tb[p] == b[p + 1]);
        }
        lemma_strictly_sorted_same_spans(ta, tb);
        assert(a =~= b) by {
            assert forall|p: int| 0 <= p < a.len() implies a[p] == b[p] by {
                if p > 0 {
                    assert(a[p] == ta[p - 1]);
                    assert(b[p] == tb[p - 1]);
                }
            }
        }
    }
}

/// Merge idempotence: merging a list that is already merged (sorted, with
/// no two spans overlapping or touching) gives back the same list.
pub proof fn lemma_merge_idempotent(l: Seq<Span>, m: Seq<Span>)
    requires
        separated(l),
        is_merge_of(m, l),
    ensures
        m == l,
{
    assert forall|i: int| 0 <= i < m.len() implies l.contains(#[trigger] m[i]) by {
        lemma_merge_of_separated_member(l, m, i);
    }
    assert forall|k: int| 0 <= k < l.len() implies m.contains(#[trigger] l[k]) by {
        let a = lemma_choose_container(m, l[k]);
        lemma_merge_of_separated_member(l, m, a);
        let g = choose|g: int| 0 <= g < l.len() && l[g] == m[a];
        lemma_separated_contains_only_self(l, g, k);
    }
    lemma_strictly_sorted_same_spans(m, l);
}


/// `t` is covered by the union of the spans of `s`: every address of a
/// non-empty `t` lies in some span of `s`; an empty `t` lies at the start,
/// inside or at the end of some span of `s`.
pub open spec fn covered_by(t: Span, s: Seq<Span>) -> bool {
    if t.start < t.end {
        forall|x: int| t.holds(x) ==> union_holds(s, x)
    } else {
        exists|k: int| 0 <= k < s.len() && (#[trigger] s[k]).touches(t.start as int)
    }
}

/// A valid span lies inside one span of a merge exactly when it is covered
/// by the union of the merged spans.
pub proof fn lemma_merge_contains_iff_covered(m: Seq<Span>, s: Seq<Span>, t: Span)
    requires
        all_wf(s),
        is_merge_of(m, s),
        t.wf(),
    ensures
        contained_in(m, t) <==> covered_by(t, s),
{
    if t.start < t.end {
        if contained_in(m, t) {
            let i = lemma_choose_container(m, t);
            assert forall|x: int| t.holds(x) implies union_holds(s, x) by {
                assert(m[i].holds(x));
            }
        }
        if covered_by(t, s) {
            assert(t.holds(t.start as int));
            let k = lemma_choose_holder(s, t.start as int);
            let i = lemma_choose_container(m, s[k]);
            if t.end > m[i].end {
                let x = m[i].end as int;
                assert(t.holds(x));
                let k2 = lemma_choose_holder(s, x);
                let j = lemma_choose_container(m, s[k2]);
                if j < i {
                    assert(m[j].end < m[i].start);
                } else if j > i {
                    assert(m[i].end < m[j].start);
                }
            }
            lemma_contained_in_intro(m, i, t);
        }
    } else {
        if contained_in(m, t) {
            let i = lemma_choose_container(m, t);
            let p = t.start as int;
            if p < m[i].end {
                assert(m[i].holds(p));
                let k = lemma_choose_holder(s, p);
                assert(s[k].touches(p));
            } else {
                let k = lemma_choose_end(s, m[i].end as int);
                assert(s[k].wf());
                assert(s[k].touches(p));
            }
        }
        if covered_by(t, s) {
            let k = choose|k: int| 0 <= k < s.len() && (#[trigger] s[k]).touches(t.start as int);
            let i = lemma_choose_container(m, s[k]);
            lemma_contained_in_intro(m, i, t);
        }
    }
}

/// Some span of `m` contains `t`.
pub fn any_contains(m: &Vec<Span>, t: &Span) -> (r: bool)
    ensures
        r == contained_in(m@, *t),
{
    let mut i: usize = 0;
    while i < m.len()
        invariant
            i <= m@.len(),
            forall|j: int| 0 <= j < i ==> !(#[trigger] m@[j]).spec_contains(*t),
        decreases m@.len() - i,
    {
        if m[i].contains(t) {
            proof {
                lemma_contained_in_intro(m@, i as int, *t);
            }
            return true;
        }
        i = i + 1;
    }
    proof {
        reveal(contained_in);
    }
    false
}

/// A separated list is the merge of itself.
pub proof fn lemma_separated_is_own_merge(w: Seq<Span>)
    requires
        separated(w),
    ensures
        is_merge_of(w, w),
{
    assert forall|k: int| 0 <= k < w.len() implies contained_in(w, #[trigger] w[k]) by {
        lemma_contained_in_intro(w, k, w[k]);
    }
    assert forall|i: int| 0 <= i < w.len() implies starts_at(w, (#[trigger] w[i]).start as int) by {
        lemma_witness_intro(w, i);
    }
    assert forall|i: int| 0 <= i < w.len() implies ends_at(w, (#[trigger] w[i]).end as int) by {
        lemma_witness_intro(w, i);
    }
    assert forall|i: int, x: int| 0 <= i < w.len() && #[trigger] w[i].holds(x) implies union_holds(w, x) by {
        lemma_witness_intro(w, i);
    }
}

/// A span inside one span of `s` is covered by the union of `s`.
pub proof fn lemma_inside_one_is_covered(t: Span, s: Seq<Span>, k: int)
    requires
        0 <= k < s.len(),
        s[k].spec_contains(t),
        t.wf(),
    ensures
        covered_by(t, s),
{
    reveal(union_holds);
    if t.start < t.end {
        assert forall|x: int| t.holds(x) implies union_holds(s, x) by {
            assert(s[k].holds(x));
        }
    } else {
        assert(s[k].touches(t.start as int));
    }
}

} // verus!
