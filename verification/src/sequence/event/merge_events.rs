use vstd::prelude::*;
use crate::sequence::event::delta::Delta;

verus! {

/// The sum of `a` and `b`, held at the largest `u64`.
pub open spec fn spec_sat_add(a: u64, b: u64) -> u64 {
    if a + b > u64::MAX {
        u64::MAX
    } else {
        (a + b) as u64
    }
}

/// The time at which item `i` of `s` stands: the sum of the deltas up to
/// it, held at the largest `u64`. The items up to `i` are taken to be
/// successes.
pub open spec fn spec_sat_time<E, X>(s: Seq<Result<Delta<u64, E>, X>>, i: int) -> u64
    decreases i,
{
    if i <= 0 {
        s[0]->Ok_0.delta
    } else {
        spec_sat_add(spec_sat_time(s, i - 1), s[i]->Ok_0.delta)
    }
}

/// Item `i` of `s` with its time in place of its delta.
pub open spec fn spec_timed<E, X>(s: Seq<Result<Delta<u64, E>, X>>, i: int) -> Delta<u64, E> {
    Delta { delta: spec_sat_time(s, i), event: s[i]->Ok_0.event }
}

/// Whether `s` has a success at `i`.
pub open spec fn spec_has_item<E, X>(s: Seq<Result<Delta<u64, E>, X>>, i: int) -> bool {
    0 <= i < s.len() && s[i] is Ok
}

/// Whether `s` has a failure at `i`.
pub open spec fn spec_fails_at<E, X>(s: Seq<Result<Delta<u64, E>, X>>, i: int) -> bool {
    0 <= i < s.len() && s[i] is Err
}

/// A stream of items that carry their time, turned back into a stream of
/// items that carry deltas: each success gets the distance from the success
/// before it, the first one from `now`; failures pass through.
pub open spec fn spec_to_deltas<E, X>(m: Seq<Result<Delta<u64, E>, X>>, now: u64) -> Seq<
    Result<Delta<u64, E>, X>,
>
    decreases m.len(),
{
    if m.len() == 0 {
        Seq::empty()
    } else {
        match m[0] {
            Ok(d) => seq![Ok(Delta { delta: (d.delta - now) as u64, event: d.event })]
                + spec_to_deltas(m.skip(1), d.delta),
            Err(e) => seq![Err(e)] + spec_to_deltas(m.skip(1), now),
        }
    }
}

/// A stream of items that carry deltas, turned into a stream of items that
/// carry their time, counted from `now`; failures pass through.
pub open spec fn spec_to_times<E, X>(d: Seq<Result<Delta<u64, E>, X>>, now: int) -> Seq<
    Result<Delta<int, E>, X>,
>
    decreases d.len(),
{
    if d.len() == 0 {
        Seq::empty()
    } else {
        match d[0] {
            Ok(x) => seq![Ok(Delta { delta: now + x.delta, event: x.event })] + spec_to_times(
                d.skip(1),
                now + x.delta,
            ),
            Err(e) => seq![Err(e)] + spec_to_times(d.skip(1), now),
        }
    }
}

/// Whether the successes of `m` carry times that never fall, starting at
/// `now` or later.
pub open spec fn spec_rising<E, X>(m: Seq<Result<Delta<u64, E>, X>>, now: u64) -> bool
    decreases m.len(),
{
    if m.len() == 0 {
        true
    } else {
        match m[0] {
            Ok(d) => now <= d.delta && spec_rising(m.skip(1), d.delta),
            Err(e) => spec_rising(m.skip(1), now),
        }
    }
}

/// The items of `m` with their times as integers.
pub open spec fn spec_as_times<E, X>(m: Seq<Result<Delta<u64, E>, X>>) -> Seq<
    Result<Delta<int, E>, X>,
> {
    m.map_values(
        |r: Result<Delta<u64, E>, X>|
            match r {
                Ok(d) => Ok(Delta { delta: d.delta as int, event: d.event }),
                Err(e) => Err(e),
            },
    )
}

/// Deltas rebuilt from rising times give those times back: every item of a
/// merged stream stands at the time at which it stood in its own stream.
pub proof fn lemma_deltas_keep_times<E, X>(m: Seq<Result<Delta<u64, E>, X>>, now: u64)
    requires
        spec_rising(m, now),
    ensures
        spec_to_times(spec_to_deltas(m, now), now as int) == spec_as_times(m),
        spec_to_deltas(m, now).len() == m.len(),
    decreases m.len(),
{
    if m.len() > 0 {
        let rest = m.skip(1);
        let next = match m[0] {
            Ok(d) => d.delta,
            Err(e) => now,
        };
        lemma_deltas_keep_times(rest, next);
        let out = spec_to_deltas(m, now);
        assert(out.skip(1) =~= spec_to_deltas(rest, next));
        assert(spec_as_times(m).skip(1) =~= spec_as_times(rest));
        assert(spec_to_times(out, now as int) =~= spec_as_times(m));
    } else {
        assert(spec_to_times(spec_to_deltas(m, now), now as int) =~= spec_as_times(m));
    }
}

pub proof fn lemma_sat_time_rises<E, X>(s: Seq<Result<Delta<u64, E>, X>>, i: int, j: int)
    requires
        0 <= i <= j,
    ensures
        spec_sat_time(s, i) <= spec_sat_time(s, j),
    decreases j,
{
    if i < j {
        lemma_sat_time_rises(s, i, j - 1);
    }
}

/// The elements of a vector in reverse order.
pub fn reversed<T>(v: Vec<T>) -> (r: Vec<T>)
    ensures
        r@ == v@.reverse(),
{
    let ghost s = v@;
    let mut v = v;
    let mut r: Vec<T> = Vec::new();
    while v.len() > 0
        invariant
            v@ == s.take(v@.len() as int),
            v@.len() <= s.len(),
            r@ == s.reverse().take(s.len() - v@.len()),
        decreases v@.len(),
    {
        let ghost before = v@;
        let x = v.pop().unwrap();
        r.push(x);
        assert(v@ =~= s.take(v@.len() as int));
        assert(r@ =~= s.reverse().take(s.len() - v@.len()));
    }
    assert(s.reverse().take(s.len() as int) =~= s.reverse());
    r
}

/// One input of a merge: a stream with its next item taken out and looked
/// at, that item carrying its time in place of its delta.
pub struct Sequence<E, X> {
    rest: Vec<Result<Delta<u64, E>, X>>,
    next: Option<Delta<u64, E>>,
    source: Ghost<Seq<Result<Delta<u64, E>, X>>>,
    taken: Ghost<int>,
}

impl<E, X> Sequence<E, X> {
    /// The stream this input reads.
    pub closed spec fn spec_source(&self) -> Seq<Result<Delta<u64, E>, X>> {
        self.source@
    }

    /// The number of items handed out so far.
    pub closed spec fn spec_taken(&self) -> int {
        self.taken@
    }

    /// The item looked at is item `spec_taken()` of the source with its
    /// time, and what is left to pull is what follows it.
    pub closed spec fn wf(&self) -> bool {
        let s = self.source@;
        let p = self.taken@;
        &&& 0 <= p <= s.len()
        &&& forall|i: int| 0 <= i <= p && i < s.len() ==> (#[trigger] s[i]) is Ok
        &&& p == s.len() ==> self.next is None && self.rest@.len() == 0
        &&& p < s.len() ==> self.next == Some(spec_timed(s, p)) && self.rest@
            =~= s.subrange(p + 1, s.len() as int).reverse()
    }

    /// The time of the item looked at.
    pub open spec fn spec_time(&self) -> Option<u64> {
        if self.spec_taken() < self.spec_source().len() {
            Some(spec_sat_time(self.spec_source(), self.spec_taken()))
        } else {
            None
        }
    }

    pub proof fn lemma_wf(&self)
        requires
            self.wf(),
        ensures
            0 <= self.spec_taken() <= self.spec_source().len(),
            forall|i: int|
                0 <= i <= self.spec_taken() && i < self.spec_source().len() ==> (
                #[trigger] self.spec_source()[i]) is Ok,
    {
    }

    /// An input over `iter`, with its first item looked at. A stream that
    /// starts with a failure gives that failure.
    pub fn new(iter: Vec<Result<Delta<u64, E>, X>>) -> (r: Result<Self, X>)
        ensures
            spec_fails_at(iter@, 0) ==> r == Err::<Self, X>(iter@[0]->Err_0),
            !spec_fails_at(iter@, 0) ==> r is Ok && r->Ok_0.wf() && r->Ok_0.spec_source() == iter@
                && r->Ok_0.spec_taken() == 0,
    {
        let ghost s = iter@;
        let mut rest = reversed(iter);
        match rest.pop() {
            Some(Ok(next)) => {
                assert(rest@ =~= s.subrange(1, s.len() as int).reverse());
                Ok(Sequence { rest, next: Some(next), source: Ghost(s), taken: Ghost(0) })
            },
            Some(Err(e)) => Err(e),
            None => Ok(Sequence { rest, next: None, source: Ghost(s), taken: Ghost(0) }),
        }
    }

    /// Hands out the item looked at and looks at the one after it. Where
    /// that one is a failure, the failure comes back too, and the input is
    /// not to be used again.
    pub fn advance(&mut self) -> (r: (Option<Delta<u64, E>>, Option<X>))
        requires
            old(self).wf(),
        ensures
            final(self).spec_source() == old(self).spec_source(),
            r.1 is None ==> final(self).wf(),
            old(self).spec_time() is None ==> r.0 is None && r.1 is None && final(self).spec_taken() == old(self).spec_taken(),
            old(self).spec_time() is Some ==> r.0 == Some(
                spec_timed(old(self).spec_source(), old(self).spec_taken()),
            ) && final(self).spec_taken() == old(self).spec_taken() + 1,
            r.1 == (if spec_fails_at(old(self).spec_source(), old(self).spec_taken() + 1) {
                Some(old(self).spec_source()[old(self).spec_taken() + 1]->Err_0)
            } else {
                None
            }),
    {
        let ghost s = self.source@;
        let ghost p = self.taken@;
        match self.next.take() {
            None => (None, None),
            Some(item) => {
                self.taken = Ghost(p + 1);
                match self.rest.pop() {
                    Some(Ok(mut following)) => {
                        let time: u64 = item.delta.saturating_add(following.delta);
                        following.delta = time;
                        self.next = Some(following);
                        assert(self.rest@ =~= s.subrange(p + 2, s.len() as int).reverse());
                        (Some(item), None)
                    },
                    Some(Err(e)) => (Some(item), Some(e)),
                    None => (Some(item), None),
                }
            },
        }
    }

    /// The time of the item looked at.
    pub fn time(&self) -> (t: Option<u64>)
        requires
            self.wf(),
        ensures
            t == self.spec_time(),
    {
        match &self.next {
            Some(next) => Some(next.delta),
            None => None,
        }
    }

    /// Whether nothing is left.
    pub fn is_empty(&self) -> (b: bool)
        requires
            self.wf(),
        ensures
            b == self.spec_time() is None,
    {
        self.next.is_none()
    }
}

/// The number of items of `s` from `i` on.
pub open spec fn spec_left<T>(s: Seq<T>, i: int) -> int {
    if 0 <= i <= s.len() {
        s.len() - i
    } else {
        0
    }
}

/// What follows the handing out of item `i` of `s`: the failure that stands
/// right after it, which ends the merge, or else `go_on`.
pub open spec fn spec_then<E, X>(
    s: Seq<Result<Delta<u64, E>, X>>,
    i: int,
    go_on: Seq<Result<Delta<u64, E>, X>>,
) -> Seq<Result<Delta<u64, E>, X>> {
    if spec_fails_at(s, i + 1) {
        seq![Err(s[i + 1]->Err_0)]
    } else {
        go_on
    }
}

/// The merge of `a` from item `i` and `b` from item `j`, as items that
/// carry their time. The item with the smaller time comes first, and on
/// equal times that of `a`, the stream with the lower index. An item is
/// pulled from its stream right after the item before it was handed out; a
/// failure that is pulled ends the merge.
pub open spec fn spec_merge_abs_from<E, X>(
    a: Seq<Result<Delta<u64, E>, X>>,
    b: Seq<Result<Delta<u64, E>, X>>,
    i: int,
    j: int,
) -> Seq<Result<Delta<u64, E>, X>>
    decreases spec_left(a, i) + spec_left(b, j),
{
    let has_a = 0 <= i < a.len();
    let has_b = 0 <= j < b.len();
    if !has_a && !has_b {
        Seq::empty()
    } else if has_a && (!has_b || spec_sat_time(a, i) <= spec_sat_time(b, j)) {
        seq![Ok(spec_timed(a, i))] + spec_then(a, i, spec_merge_abs_from(a, b, i + 1, j))
    } else {
        seq![Ok(spec_timed(b, j))] + spec_then(b, j, spec_merge_abs_from(a, b, i, j + 1))
    }
}

/// The merge of `a` and `b`, as items that carry their time. The first item
/// of `a` is pulled, then that of `b`; a failure there is all there is.
pub open spec fn spec_merge_abs<E, X>(
    a: Seq<Result<Delta<u64, E>, X>>,
    b: Seq<Result<Delta<u64, E>, X>>,
) -> Seq<Result<Delta<u64, E>, X>> {
    if spec_fails_at(a, 0) {
        seq![Err(a[0]->Err_0)]
    } else if spec_fails_at(b, 0) {
        seq![Err(b[0]->Err_0)]
    } else {
        spec_merge_abs_from(a, b, 0, 0)
    }
}

pub proof fn lemma_to_deltas_item<E, X>(
    d: Delta<u64, E>,
    rest: Seq<Result<Delta<u64, E>, X>>,
    now: u64,
)
    ensures
        spec_to_deltas(seq![Ok(d)] + rest, now) == seq![
            Ok(Delta { delta: (d.delta - now) as u64, event: d.event }),
        ] + spec_to_deltas(rest, d.delta),
{
    let m = seq![Ok::<Delta<u64, E>, X>(d)] + rest;
    assert(m.skip(1) =~= rest);
}

pub proof fn lemma_to_deltas_failure<E, X>(e: X, now: u64)
    ensures
        spec_to_deltas(seq![Err::<Delta<u64, E>, X>(e)], now) == seq![
            Err::<Delta<u64, E>, X>(e),
        ],
{
    let m = seq![Err::<Delta<u64, E>, X>(e)];
    assert(m.skip(1) =~= Seq::<Result<Delta<u64, E>, X>>::empty());
    assert(spec_to_deltas(m.skip(1), now) =~= Seq::<Result<Delta<u64, E>, X>>::empty());
    assert(spec_to_deltas(m, now) =~= m);
}

/// Merges two streams into one. Every item keeps the time at which it
/// stood in its own stream; the deltas of the merged stream are rebuilt
/// from those times. Sums of deltas are held at the largest `u64`.
pub fn merge_events<E, X>(
    iter1: Vec<Result<Delta<u64, E>, X>>,
    iter2: Vec<Result<Delta<u64, E>, X>>,
) -> (r: Vec<Result<Delta<u64, E>, X>>)
    ensures
        r@ == spec_to_deltas(spec_merge_abs(iter1@, iter2@), 0),
{
    let ghost a = iter1@;
    let ghost b = iter2@;
    let mut out: Vec<Result<Delta<u64, E>, X>> = Vec::new();
    let mut seq1 = match Sequence::new(iter1) {
        Ok(s) => s,
        Err(e) => {
            proof {
                lemma_to_deltas_failure::<E, X>(e, 0);
            }
            out.push(Err(e));
            return out;
        },
    };
    let mut seq2 = match Sequence::new(iter2) {
        Ok(s) => s,
        Err(e) => {
            proof {
                lemma_to_deltas_failure::<E, X>(e, 0);
            }
            out.push(Err(e));
            return out;
        },
    };
    let mut time: u64 = 0;
    assert(out@ + spec_to_deltas(spec_merge_abs_from(a, b, 0, 0), 0) =~= spec_to_deltas(
        spec_merge_abs(a, b),
        0,
    ));
    loop
        invariant
            a == iter1@,
            b == iter2@,
            seq1.wf(),
            seq2.wf(),
            seq1.spec_source() == a,
            seq2.spec_source() == b,
            seq1.spec_time() matches Some(t) ==> time <= t,
            seq2.spec_time() matches Some(t) ==> time <= t,
            out@ + spec_to_deltas(
                spec_merge_abs_from(a, b, seq1.spec_taken(), seq2.spec_taken()),
                time,
            ) == spec_to_deltas(spec_merge_abs(a, b), 0),
        decreases spec_left(a, seq1.spec_taken()) + spec_left(b, seq2.spec_taken()),
    {
        proof {
            seq1.lemma_wf();
            seq2.lemma_wf();
        }
        let ghost i = seq1.spec_taken();
        let ghost j = seq2.spec_taken();
        let ghost before = out@;
        let first: bool = match (seq1.time(), seq2.time()) {
            (None, None) => {
                assert(spec_merge_abs_from(a, b, i, j) =~= Seq::<
                    Result<Delta<u64, E>, X>,
                >::empty());
                assert(spec_to_deltas(spec_merge_abs_from(a, b, i, j), time) =~= Seq::<
                    Result<Delta<u64, E>, X>,
                >::empty());
                assert(out@ + Seq::<Result<Delta<u64, E>, X>>::empty() =~= out@);
                return out;
            },
            (Some(_), None) => true,
            (None, Some(_)) => false,
            (Some(t1), Some(t2)) => t1 <= t2,
        };
        let (item, failure) = if first {
            proof {
                lemma_sat_time_rises(a, i, i + 1);
            }
            seq1.advance()
        } else {
            proof {
                lemma_sat_time_rises(b, j, j + 1);
            }
            seq2.advance()
        };
        let mut ev = item.unwrap();
        let t: u64 = ev.delta;
        ev.delta = t - time;
        let ghost timed = if first {
            spec_timed(a, i)
        } else {
            spec_timed(b, j)
        };
        let ghost tail = if first {
            spec_then(a, i, spec_merge_abs_from(a, b, i + 1, j))
        } else {
            spec_then(b, j, spec_merge_abs_from(a, b, i, j + 1))
        };
        proof {
            assert(spec_merge_abs_from(a, b, i, j) == seq![
                Ok::<Delta<u64, E>, X>(timed),
            ] + tail);
            lemma_to_deltas_item(timed, tail, time);
        }
        out.push(Ok(ev));
        time = t;
        match failure {
            Some(e) => {
                proof {
                    lemma_to_deltas_failure::<E, X>(e, time);
                }
                out.push(Err(e));
                assert(tail == seq![Err::<Delta<u64, E>, X>(e)]);
                assert(out@ =~= before + (seq![Ok(ev)] + spec_to_deltas(tail, time)));
                return out;
            },
            None => {
                assert(out@ + spec_to_deltas(tail, time) =~= before + (seq![Ok(ev)]
                    + spec_to_deltas(tail, time)));
            },
        }
    }
}

pub proof fn lemma_rising_failure<E, X>(e: X, now: u64)
    ensures
        spec_rising(seq![Err::<Delta<u64, E>, X>(e)], now),
{
    let m = seq![Err::<Delta<u64, E>, X>(e)];
    assert(m.skip(1) =~= Seq::<Result<Delta<u64, E>, X>>::empty());
    assert(spec_rising(m.skip(1), now));
}

pub proof fn lemma_rising_item<E, X>(
    d: Delta<u64, E>,
    rest: Seq<Result<Delta<u64, E>, X>>,
    now: u64,
)
    requires
        now <= d.delta,
        spec_rising(rest, d.delta),
    ensures
        spec_rising(seq![Ok(d)] + rest, now),
{
    let m = seq![Ok::<Delta<u64, E>, X>(d)] + rest;
    assert(m.skip(1) =~= rest);
}

pub proof fn lemma_merge_rising<E, X>(
    a: Seq<Result<Delta<u64, E>, X>>,
    b: Seq<Result<Delta<u64, E>, X>>,
    i: int,
    j: int,
    now: u64,
)
    requires
        0 <= i <= a.len(),
        0 <= j <= b.len(),
        i < a.len() ==> now <= spec_sat_time(a, i),
        j < b.len() ==> now <= spec_sat_time(b, j),
    ensures
        spec_rising(spec_merge_abs_from(a, b, i, j), now),
    decreases spec_left(a, i) + spec_left(b, j),
{
    let has_a = 0 <= i < a.len();
    let has_b = 0 <= j < b.len();
    if !has_a && !has_b {
    } else if has_a && (!has_b || spec_sat_time(a, i) <= spec_sat_time(b, j)) {
        let tail = spec_then(a, i, spec_merge_abs_from(a, b, i + 1, j));
        if spec_fails_at(a, i + 1) {
            lemma_rising_failure::<E, X>(a[i + 1]->Err_0, spec_sat_time(a, i));
        } else {
            lemma_sat_time_rises(a, i, i + 1);
            lemma_merge_rising(a, b, i + 1, j, spec_sat_time(a, i));
        }
        lemma_rising_item(spec_timed(a, i), tail, now);
    } else {
        let tail = spec_then(b, j, spec_merge_abs_from(a, b, i, j + 1));
        if spec_fails_at(b, j + 1) {
            lemma_rising_failure::<E, X>(b[j + 1]->Err_0, spec_sat_time(b, j));
        } else {
            lemma_sat_time_rises(b, j, j + 1);
            lemma_merge_rising(a, b, i, j + 1, spec_sat_time(b, j));
        }
        lemma_rising_item(spec_timed(b, j), tail, now);
    }
}

/// A merge of two streams keeps time: the times that the deltas of the
/// merged stream add up to are the times at which the items stood in their
/// own streams.
pub proof fn lemma_merge_keeps_times<E, X>(
    a: Seq<Result<Delta<u64, E>, X>>,
    b: Seq<Result<Delta<u64, E>, X>>,
)
    ensures
        spec_rising(spec_merge_abs(a, b), 0),
        spec_to_times(spec_to_deltas(spec_merge_abs(a, b), 0), 0) == spec_as_times(
            spec_merge_abs(a, b),
        ),
{
    let m = spec_merge_abs(a, b);
    if spec_fails_at(a, 0) {
        lemma_rising_failure::<E, X>(a[0]->Err_0, 0);
    } else if spec_fails_at(b, 0) {
        lemma_rising_failure::<E, X>(b[0]->Err_0, 0);
    } else {
        lemma_merge_rising(a, b, 0, 0, 0);
    }
    lemma_deltas_keep_times(m, 0);
}

/// Whether the left of two next items goes first: there is one, and it
/// is earlier than the right one, or as early and of a stream with a lower
/// index. An item is given as its time and the index of its stream.
pub open spec fn spec_goes_left(left: Option<(u64, int)>, right: Option<(u64, int)>) -> bool {
    left is Some && (right is None || left->Some_0.0 < right->Some_0.0 || (left->Some_0.0
        == right->Some_0.0 && left->Some_0.1 < right->Some_0.1))
}

/// The one of two next items that goes first; a subtree with nothing left
/// has none.
pub open spec fn spec_earlier(left: Option<(u64, int)>, right: Option<(u64, int)>) -> Option<
    (u64, int),
> {
    if spec_goes_left(left, right) {
        left
    } else {
        right
    }
}

/// The next item below node `n` of the tree over `times` that goes first,
/// as its time and the index of its stream. With `k` inputs, nodes
/// `0 .. k - 1` are inner nodes, node `k - 1 + i` is the leaf of input `i`,
/// and the children of node `n` are `2n + 1` and `2n + 2`.
pub open spec fn spec_node_time(times: Seq<Option<u64>>, n: int) -> Option<(u64, int)>
    decreases 2 * times.len() - n,
{
    let k = times.len() as int;
    if n < 0 || n >= 2 * k - 1 {
        None
    } else if n >= k - 1 {
        match times[n - (k - 1)] {
            Some(t) => Some((t, n - (k - 1))),
            None => None,
        }
    } else {
        spec_earlier(spec_node_time(times, 2 * n + 1), spec_node_time(times, 2 * n + 2))
    }
}

/// The input whose next item goes first of all below node `n`.
pub open spec fn spec_node_pick(times: Seq<Option<u64>>, n: int) -> int {
    match spec_node_time(times, n) {
        Some(first) => first.1,
        None => 0,
    }
}

/// Whether node `n` lies on the way from node `from` up to the root.
pub open spec fn spec_on_path(from: int, n: int) -> bool
    decreases from,
{
    if n == from {
        true
    } else if from <= 0 {
        false
    } else {
        spec_on_path((from - 1) / 2, n)
    }
}

pub proof fn lemma_path_goes_up(from: int, n: int)
    requires
        spec_on_path(from, n),
        from >= 0,
    ensures
        0 <= n <= from,
    decreases from,
{
    if n != from {
        lemma_path_goes_up((from - 1) / 2, n);
    }
}

pub proof fn lemma_path_has_parents(from: int, n: int)
    requires
        spec_on_path(from, n),
        n > 0,
        from >= 0,
    ensures
        spec_on_path(from, (n - 1) / 2),
    decreases from,
{
    if n == from {
        assert(spec_on_path((from - 1) / 2, (from - 1) / 2));
    } else {
        lemma_path_has_parents((from - 1) / 2, n);
    }
}

/// A change of one input's time changes the time of no node off the way
/// from that input's leaf to the root.
pub proof fn lemma_off_path_unchanged(
    before: Seq<Option<u64>>,
    after: Seq<Option<u64>>,
    c: int,
    n: int,
)
    requires
        before.len() == after.len(),
        0 <= c < before.len(),
        forall|i: int| 0 <= i < before.len() && i != c ==> before[i] == after[i],
        n >= 0,
        !spec_on_path(c + before.len() - 1, n),
    ensures
        spec_node_time(after, n) == spec_node_time(before, n),
    decreases 2 * before.len() - n,
{
    let k = before.len() as int;
    let leaf = c + k - 1;
    if n >= 2 * k - 1 {
    } else if n >= k - 1 {
        assert(n != leaf);
    } else {
        if spec_on_path(leaf, 2 * n + 1) {
            lemma_path_has_parents(leaf, 2 * n + 1);
        }
        if spec_on_path(leaf, 2 * n + 2) {
            lemma_path_has_parents(leaf, 2 * n + 2);
        }
        lemma_off_path_unchanged(before, after, c, 2 * n + 1);
        lemma_off_path_unchanged(before, after, c, 2 * n + 2);
    }
}

/// The root holds the item that goes first of all: nothing below any node
/// goes before it.
pub proof fn lemma_root_is_earliest(times: Seq<Option<u64>>, n: int)
    requires
        0 <= n < 2 * times.len() - 1,
    ensures
        spec_node_time(times, n) matches Some(v) ==> spec_node_time(times, 0) matches Some(r)
            && (r.0 < v.0 || (r.0 == v.0 && r.1 <= v.1)),
    decreases n,
{
    if n > 0 {
        let parent = (n - 1) / 2;
        assert(n == 2 * parent + 1 || n == 2 * parent + 2);
        assert(parent < times.len() - 1);
        lemma_root_is_earliest(times, parent);
    }
}

/// The input that the tree picks holds the time that the node holds.
pub proof fn lemma_pick_holds_time(times: Seq<Option<u64>>, n: int)
    requires
        0 <= n < 2 * times.len() - 1,
        spec_node_time(times, n) is Some,
    ensures
        0 <= spec_node_pick(times, n) < times.len(),
        times[spec_node_pick(times, n)] == Some(spec_node_time(times, n)->Some_0.0),
    decreases 2 * times.len() - n,
{
    let k = times.len() as int;
    if n < k - 1 {
        if spec_goes_left(spec_node_time(times, 2 * n + 1), spec_node_time(times, 2 * n + 2)) {
            lemma_pick_holds_time(times, 2 * n + 1);
        } else {
            lemma_pick_holds_time(times, 2 * n + 2);
        }
    }
}

/// Ties go by the index of the streams: the input that the tree picks has
/// the earliest next item of all, and of the inputs whose next items are
/// as early it is the one with the lowest index.
pub proof fn lemma_pick_is_first_earliest(times: Seq<Option<u64>>)
    requires
        times.len() >= 1,
        spec_node_time(times, 0) is Some,
    ensures
        0 <= spec_node_pick(times, 0) < times.len(),
        times[spec_node_pick(times, 0)] is Some,
        forall|i: int|
            0 <= i < times.len() ==> ((#[trigger] times[i]) matches Some(u) ==> {
                let t = times[spec_node_pick(times, 0)]->Some_0;
                t < u || (t == u && spec_node_pick(times, 0) <= i)
            }),
{
    let k = times.len() as int;
    lemma_pick_holds_time(times, 0);
    assert forall|i: int| 0 <= i < times.len() implies ((#[trigger] times[i]) matches Some(u) ==> {
        let t = times[spec_node_pick(times, 0)]->Some_0;
        t < u || (t == u && spec_node_pick(times, 0) <= i)
    }) by {
        lemma_root_is_earliest(times, i + k - 1);
    }
}

/// The time of the item that each stream of `streams` has next, when
/// `pos[i]` items of stream `i` have been handed out.
pub open spec fn spec_times_at<E, X>(
    streams: Seq<Seq<Result<Delta<u64, E>, X>>>,
    pos: Seq<int>,
) -> Seq<Option<u64>> {
    Seq::new(
        streams.len(),
        |i: int|
            if pos[i] < streams[i].len() {
                Some(spec_sat_time(streams[i], pos[i]))
            } else {
                None
            },
    )
}

/// What a node of the tree holds, with the index of the stream as an
/// integer.
pub open spec fn spec_as_node(held: Option<(u64, usize)>) -> Option<(u64, int)> {
    match held {
        Some(first) => Some((first.0, first.1 as int)),
        None => None,
    }
}

/// The inputs of a merge of many streams, in a tree that holds at each
/// inner node the next item below it that goes first: its time and the
/// index of its stream.
pub struct BinaryTreeSequenceMerge<E, X> {
    sequences: Vec<Sequence<E, X>>,
    heap: Vec<Option<(u64, usize)>>,
}

impl<E, X> BinaryTreeSequenceMerge<E, X> {
    /// The streams that are merged.
    pub closed spec fn spec_sources(&self) -> Seq<Seq<Result<Delta<u64, E>, X>>> {
        Seq::new(self.sequences@.len(), |i: int| self.sequences@[i].spec_source())
    }

    /// The number of items handed out from each stream.
    pub closed spec fn spec_taken(&self) -> Seq<int> {
        Seq::new(self.sequences@.len(), |i: int| self.sequences@[i].spec_taken())
    }

    /// The time of the next item of each stream.
    pub open spec fn spec_times(&self) -> Seq<Option<u64>> {
        spec_times_at(self.spec_sources(), self.spec_taken())
    }

    /// There is at least one input, every input is well formed, and the
    /// node indices fit in a `usize`.
    pub closed spec fn inputs_wf(&self) -> bool {
        &&& self.sequences@.len() >= 1
        &&& self.heap@.len() == self.sequences@.len() - 1
        &&& 2 * self.sequences@.len() <= usize::MAX
        &&& forall|i: int| 0 <= i < self.sequences@.len() ==> (#[trigger] self.sequences@[i]).wf()
    }

    /// Whether inner node `n` holds the next item below it that goes first.
    pub closed spec fn node_ok(&self, n: int) -> bool {
        0 <= n < self.heap@.len() ==> spec_as_node(self.heap@[n]) == spec_node_time(
            self.spec_times(),
            n,
        )
    }

    /// The inputs are well formed and every inner node holds the earliest
    /// time below it.
    pub closed spec fn wf(&self) -> bool {
        &&& self.inputs_wf()
        &&& forall|n: int| 0 <= n < self.heap@.len() ==> self.node_ok(n)
    }

    pub proof fn lemma_shape(&self)
        requires
            self.inputs_wf(),
        ensures
            self.spec_sources().len() >= 1,
            self.spec_taken().len() == self.spec_sources().len(),
            self.spec_times().len() == self.spec_sources().len(),
            forall|i: int|
                0 <= i < self.spec_sources().len() ==> 0 <= (#[trigger] self.spec_taken()[i])
                    <= self.spec_sources()[i].len(),
    {
        assert forall|i: int| 0 <= i < self.spec_sources().len() implies 0 <= (
        #[trigger] self.spec_taken()[i]) <= self.spec_sources()[i].len() by {
            self.sequences@[i].lemma_wf();
        }
    }

    /// The next item below node `index` that goes first: that of an input
    /// for a leaf, the held one for an inner node.
    fn get_time_for(&self, index: usize) -> (t: Option<(u64, usize)>)
        requires
            self.inputs_wf(),
            self.node_ok(index as int),
        ensures
            spec_as_node(t) == spec_node_time(self.spec_times(), index as int),
    {
        if index >= self.heap.len() {
            let at: usize = index - self.heap.len();
            if at < self.sequences.len() {
                match self.sequences[at].time() {
                    Some(time) => Some((time, at)),
                    None => None,
                }
            } else {
                None
            }
        } else {
            self.heap[index]
        }
    }

    /// The next item below inner node `index` that goes first, from its
    /// children.
    fn calculate_time_from_children_for(&self, index: usize) -> (t: Option<(u64, usize)>)
        requires
            self.inputs_wf(),
            index < self.heap@.len(),
            self.node_ok(2 * index + 1),
            self.node_ok(2 * index + 2),
        ensures
            spec_as_node(t) == spec_node_time(self.spec_times(), index as int),
    {
        let left: usize = index * 2 + 1;
        let right: usize = index * 2 + 2;
        let left_time = self.get_time_for(left);
        let right_time = self.get_time_for(right);
        match (left_time, right_time) {
            (Some(left_time), Some(right_time)) => {
                if left_time.0 < right_time.0 || (left_time.0 == right_time.0 && left_time.1
                    < right_time.1) {
                    Some(left_time)
                } else {
                    Some(right_time)
                }
            },
            (Some(left_time), None) => Some(left_time),
            (None, Some(right_time)) => Some(right_time),
            (None, None) => None,
        }
    }

    /// Sets inner node `index` from its children.
    fn update_time_from_children_for(&mut self, index: usize) -> (t: Option<(u64, usize)>)
        requires
            old(self).inputs_wf(),
            index < old(self).heap@.len(),
            old(self).node_ok(2 * index + 1),
            old(self).node_ok(2 * index + 2),
        ensures
            final(self).inputs_wf(),
            final(self).sequences == old(self).sequences,
            final(self).heap@ == old(self).heap@.update(index as int, t),
            final(self).node_ok(index as int),
            spec_as_node(t) == spec_node_time(old(self).spec_times(), index as int),
    {
        let time = self.calculate_time_from_children_for(index);
        self.heap[index] = time;
        time
    }

    /// Sets the inner nodes on the way from node `index` up to the root,
    /// after the time of the input at that leaf has changed.
    fn propagate_time_change_from(&mut self, index: usize)
        requires
            old(self).inputs_wf(),
            old(self).heap@.len() <= index < 2 * old(self).heap@.len() + 1,
            forall|n: int|
                0 <= n < old(self).heap@.len() && !spec_on_path(index as int, n) ==> old(self).node_ok(n),
        ensures
            final(self).wf(),
            final(self).sequences == old(self).sequences,
    {
        let mut index = index;
        let ghost leaf = index as int;
        assert forall|n: int|
            0 <= n < self.heap@.len() && !(index > 0 && spec_on_path(
                (index - 1) / 2,
                n,
            )) implies self.node_ok(n) by {
            assert(!spec_on_path(index as int, n));
        }
        while index > 0
            invariant
                self.inputs_wf(),
                self.sequences == old(self).sequences,
                self.heap@.len() == old(self).heap@.len(),
                leaf < 2 * self.heap@.len() + 1,
                spec_on_path(leaf, index as int),
                0 <= index <= leaf,
                forall|n: int|
                    0 <= n < self.heap@.len() && !(index > 0 && spec_on_path(
                        (index - 1) / 2,
                        n,
                    )) ==> self.node_ok(n),
            decreases index,
        {
            let ghost child = index as int;
            proof {
                lemma_path_has_parents(leaf, child);
            }
            index = (index - 1) / 2;
            let ghost before = *self;
            assert(child == 2 * index + 1 || child == 2 * index + 2);
            assert(before.node_ok(2 * index + 1) && before.node_ok(2 * index + 2)) by {
                if spec_on_path(index as int, 2 * index + 1) {
                    lemma_path_goes_up(index as int, 2 * index + 1);
                }
                if spec_on_path(index as int, 2 * index + 2) {
                    lemma_path_goes_up(index as int, 2 * index + 2);
                }
            }
            self.update_time_from_children_for(index);
            assert forall|n: int|
                0 <= n < self.heap@.len() && !(index > 0 && spec_on_path(
                    (index - 1) / 2,
                    n,
                )) implies self.node_ok(n) by {
                if n != index {
                    assert(!spec_on_path(index as int, n));
                    assert(before.node_ok(n));
                    assert(self.spec_times() == before.spec_times());
                }
            }
        }
    }

    /// The input whose next item goes first, as the root holds it; none
    /// when nothing is left.
    fn find_smallest_sequence_index(&self) -> (r: Option<usize>)
        requires
            self.wf(),
        ensures
            spec_node_time(self.spec_times(), 0) is None ==> r is None,
            spec_node_time(self.spec_times(), 0) is Some ==> r == Some(
                spec_node_pick(self.spec_times(), 0) as usize,
            ) && 0 <= spec_node_pick(self.spec_times(), 0) < self.spec_times().len(),
    {
        proof {
            self.lemma_shape();
            if spec_node_time(self.spec_times(), 0) is Some {
                lemma_pick_holds_time(self.spec_times(), 0);
            }
        }
        match self.get_time_for(0) {
            None => None,
            Some(first) => Some(first.1),
        }
    }

    /// The tree over the streams of `iters` that are not empty, each with
    /// its first item looked at. The first stream that starts with a
    /// failure gives that failure.
    pub fn new(iters: Vec<Vec<Result<Delta<u64, E>, X>>>) -> (r: Result<Self, X>)
        requires
            2 * iters@.len() + 2 <= usize::MAX,
        ensures
            match spec_head_failure(spec_streams(iters@), iters@.len() as int) {
                Some(e) => r == Err::<Self, X>(e),
                None => r is Ok && r->Ok_0.wf() && r->Ok_0.spec_sources() == spec_merged_streams(
                    spec_streams(iters@),
                ) && r->Ok_0.spec_taken() == Seq::new(
                    r->Ok_0.spec_sources().len(),
                    |i: int| 0int,
                ),
            },
    {
        let ghost array = spec_streams(iters@);
        let mut sequences: Vec<Sequence<E, X>> = Vec::new();
        let n: usize = iters.len();
        let mut count: usize = 0;
        for iter in it: iters
            invariant
                it.seq() == iters@,
                array == spec_streams(iters@),
                iters@.len() == n,
                count == it.index(),
                spec_head_failure(array, count as int) is None,
                sequences@.len() <= count,
                forall|i: int| 0 <= i < sequences@.len() ==> (#[trigger] sequences@[i]).wf(),
                Seq::new(sequences@.len(), |i: int| sequences@[i].spec_source())
                    == spec_non_empty(array, count as int),
                forall|i: int|
                    0 <= i < sequences@.len() ==> (#[trigger] sequences@[i]).spec_taken() == 0,
        {
            assert(array[count as int] == iter@);
            let seq = match Sequence::new(iter) {
                Ok(seq) => seq,
                Err(e) => {
                    proof {
                        lemma_head_failure_stays(array, count + 1, n as int);
                    }
                    return Err(e);
                },
            };
            let ghost before = sequences@;
            if !seq.is_empty() {
                sequences.push(seq);
                assert(Seq::new(sequences@.len(), |i: int| sequences@[i].spec_source())
                    =~= Seq::new(before.len(), |i: int| before[i].spec_source()).push(
                    seq.spec_source(),
                ));
            }
            count += 1;
        }
        if sequences.len() == 0 {
            let empty: Vec<Result<Delta<u64, E>, X>> = Vec::new();
            match Sequence::new(empty) {
                Ok(seq) => {
                    sequences.push(seq);
                },
                Err(e) => {
                    return Err(e);
                },
            }
            assert(Seq::new(sequences@.len(), |i: int| sequences@[i].spec_source())
                =~= spec_merged_streams(array));
        }
        let mut heap: Vec<Option<(u64, usize)>> = Vec::new();
        let inner: usize = sequences.len() - 1;
        let mut filled: usize = 0;
        while filled < inner
            invariant
                filled <= inner,
                heap@.len() == filled,
            decreases inner - filled,
        {
            heap.push(None);
            filled += 1;
        }
        let mut tree = Self { heap, sequences };
        assert(tree.spec_sources() =~= spec_merged_streams(array));
        assert(tree.spec_taken() =~= Seq::new(tree.spec_sources().len(), |i: int| 0int));
        let mut i: usize = inner;
        while i > 0
            invariant
                tree.inputs_wf(),
                tree.heap@.len() == inner,
                i <= inner,
                tree.spec_sources() == spec_merged_streams(array),
                tree.spec_taken() == Seq::new(tree.spec_sources().len(), |i: int| 0int),
                forall|n: int| i <= n < inner ==> tree.node_ok(n),
            decreases i,
        {
            i -= 1;
            let ghost before = tree;
            tree.update_time_from_children_for(i);
            assert(tree.spec_times() == before.spec_times());
            assert forall|n: int| i <= n < inner implies tree.node_ok(n) by {
                if n != i {
                    assert(before.node_ok(n));
                }
            }
        }
        Ok(tree)
    }

    /// Hands out the earliest item of all inputs, with its time in place
    /// of its delta, and pulls the item after it from its stream. Where the
    /// pulled item is a failure, the failure is returned in place of the
    /// item, and the tree is not to be used again.
    pub fn next(&mut self) -> (r: Result<Option<Delta<u64, E>>, X>)
        requires
            old(self).wf(),
        ensures
            final(self).spec_sources() == old(self).spec_sources(),
            match spec_node_time(old(self).spec_times(), 0) {
                None => r == Ok::<Option<Delta<u64, E>>, X>(None) && final(self).wf() && final(self).spec_taken() == old(self).spec_taken(),
                Some(first) => {
                    let c = spec_node_pick(old(self).spec_times(), 0);
                    let s = old(self).spec_sources()[c];
                    let p = old(self).spec_taken()[c];
                    &&& 0 <= c < old(self).spec_sources().len()
                    &&& old(self).spec_times()[c] == Some(first.0)
                    &&& if spec_fails_at(s, p + 1) {
                        r == Err::<Option<Delta<u64, E>>, X>(s[p + 1]->Err_0)
                    } else {
                        &&& r == Ok::<Option<Delta<u64, E>>, X>(Some(spec_timed(s, p)))
                        &&& final(self).wf()
                        &&& final(self).spec_taken() == old(self).spec_taken().update(c, p + 1)
                    }
                },
            },
    {
        proof {
            self.lemma_shape();
        }
        let index = self.find_smallest_sequence_index();
        match index {
            None => Ok(None),
            Some(index) => {
                proof {
                    lemma_pick_holds_time(self.spec_times(), 0);
                }
                let ghost before = *self;
                let ghost times = self.spec_times();
                let (item, failure) = self.sequences[index].advance();
                match failure {
                    Some(e) => {
                        assert(self.spec_sources() =~= before.spec_sources());
                        Err(e)
                    },
                    None => {
                        assert(self.spec_sources() =~= before.spec_sources());
                        assert(self.spec_taken() =~= before.spec_taken().update(
                            index as int,
                            before.spec_taken()[index as int] + 1,
                        ));
                        let leaf: usize = index + self.heap.len();
                        assert forall|n: int|
                            0 <= n < self.heap@.len() && !spec_on_path(
                                leaf as int,
                                n,
                            ) implies self.node_ok(n) by {
                            assert(before.node_ok(n));
                            lemma_off_path_unchanged(times, self.spec_times(), index as int, n);
                        }
                        self.propagate_time_change_from(leaf);
                        assert(self.spec_sources() =~= before.spec_sources());
                        assert(self.spec_taken() =~= before.spec_taken().update(
                            index as int,
                            before.spec_taken()[index as int] + 1,
                        ));
                        Ok(item)
                    },
                }
            },
        }
    }
}

/// The streams of an array as sequences.
pub open spec fn spec_streams<E, X>(array: Seq<Vec<Result<Delta<u64, E>, X>>>) -> Seq<
    Seq<Result<Delta<u64, E>, X>>,
> {
    Seq::new(array.len(), |i: int| array[i]@)
}

/// Those of the first `n` streams of `array` that are not empty.
pub open spec fn spec_non_empty<E, X>(array: Seq<Seq<Result<Delta<u64, E>, X>>>, n: int) -> Seq<
    Seq<Result<Delta<u64, E>, X>>,
>
    decreases n,
{
    if n <= 0 {
        Seq::empty()
    } else if array[n - 1].len() > 0 {
        spec_non_empty(array, n - 1).push(array[n - 1])
    } else {
        spec_non_empty(array, n - 1)
    }
}

/// The streams that take part in a merge of `array`: those that are not
/// empty, or a single empty one where there is no other.
pub open spec fn spec_merged_streams<E, X>(array: Seq<Seq<Result<Delta<u64, E>, X>>>) -> Seq<
    Seq<Result<Delta<u64, E>, X>>,
> {
    let streams = spec_non_empty(array, array.len() as int);
    if streams.len() == 0 {
        seq![Seq::empty()]
    } else {
        streams
    }
}

/// The failure at the head of the first of the first `n` streams of
/// `array` that starts with one.
pub open spec fn spec_head_failure<E, X>(
    array: Seq<Seq<Result<Delta<u64, E>, X>>>,
    n: int,
) -> Option<X>
    decreases n,
{
    if n <= 0 {
        None
    } else {
        match spec_head_failure(array, n - 1) {
            Some(e) => Some(e),
            None => if spec_fails_at(array[n - 1], 0) {
                Some(array[n - 1][0]->Err_0)
            } else {
                None
            },
        }
    }
}

pub proof fn lemma_head_failure_stays<E, X>(
    array: Seq<Seq<Result<Delta<u64, E>, X>>>,
    n: int,
    m: int,
)
    requires
        0 <= n <= m,
        spec_head_failure(array, n) is Some,
    ensures
        spec_head_failure(array, m) == spec_head_failure(array, n),
    decreases m,
{
    if n < m {
        lemma_head_failure_stays(array, n, m - 1);
    }
}

/// The number of items in the first `n` streams of `array`.
pub open spec fn spec_total_items<E, X>(array: Seq<Seq<Result<Delta<u64, E>, X>>>, n: int) -> nat
    decreases n,
{
    if n <= 0 {
        0
    } else {
        spec_total_items(array, n - 1) + array[n - 1].len()
    }
}

/// The merge of `streams`, of which `pos[i]` items of stream `i` have been
/// handed out, as items that carry their time, in at most `fuel` steps. At
/// each step the tree over the times of the next items picks the stream
/// whose next item is the earliest, and of several as early the stream
/// with the lowest index (see [`lemma_pick_is_first_earliest`]); the
/// item after the picked one is pulled from that stream, and where it is a
/// failure the merge ends with that failure in place of the picked item.
pub open spec fn spec_merge_array_abs_from<E, X>(
    streams: Seq<Seq<Result<Delta<u64, E>, X>>>,
    pos: Seq<int>,
    fuel: nat,
) -> Seq<Result<Delta<u64, E>, X>>
    decreases fuel,
{
    let times = spec_times_at(streams, pos);
    if fuel == 0 || spec_node_time(times, 0) is None {
        Seq::empty()
    } else {
        let c = spec_node_pick(times, 0);
        if spec_fails_at(streams[c], pos[c] + 1) {
            seq![Err(streams[c][pos[c] + 1]->Err_0)]
        } else {
            seq![Ok(spec_timed(streams[c], pos[c]))] + spec_merge_array_abs_from(
                streams,
                pos.update(c, pos[c] + 1),
                (fuel - 1) as nat,
            )
        }
    }
}

/// The merge of the streams of `array`, as items that carry their time.
/// The first item of every stream is pulled first, in the order of the
/// streams; a failure there is all there is. A step is allowed for every
/// item of `array`.
pub open spec fn spec_merge_array_abs<E, X>(array: Seq<Seq<Result<Delta<u64, E>, X>>>) -> Seq<
    Result<Delta<u64, E>, X>,
> {
    match spec_head_failure(array, array.len() as int) {
        Some(e) => seq![Err(e)],
        None => {
            let streams = spec_merged_streams(array);
            spec_merge_array_abs_from(
                streams,
                Seq::new(streams.len(), |i: int| 0int),
                spec_total_items(array, array.len() as int),
            )
        },
    }
}

/// Whether no stream has its next item before `now`.
pub open spec fn spec_none_before(times: Seq<Option<u64>>, now: u64) -> bool {
    forall|i: int| 0 <= i < times.len() ==> ((#[trigger] times[i]) matches Some(t) ==> now <= t)
}

/// After the tree's pick is handed out, no stream has its next item before
/// the time of that pick.
pub proof fn lemma_pick_is_earliest<E, X>(
    streams: Seq<Seq<Result<Delta<u64, E>, X>>>,
    pos: Seq<int>,
)
    requires
        streams.len() >= 1,
        pos.len() == streams.len(),
        forall|i: int| 0 <= i < streams.len() ==> 0 <= #[trigger] pos[i] <= streams[i].len(),
        spec_node_time(spec_times_at(streams, pos), 0) is Some,
    ensures
        ({
            let times = spec_times_at(streams, pos);
            let c = spec_node_pick(times, 0);
            &&& 0 <= c < streams.len()
            &&& times[c] == Some(spec_node_time(times, 0)->Some_0.0)
            &&& pos[c] < streams[c].len()
            &&& spec_none_before(times, times[c]->Some_0)
            &&& spec_none_before(
                spec_times_at(streams, pos.update(c, pos[c] + 1)),
                times[c]->Some_0,
            )
        }),
{
    let times = spec_times_at(streams, pos);
    let k = streams.len() as int;
    lemma_pick_holds_time(times, 0);
    let c = spec_node_pick(times, 0);
    let t = times[c]->Some_0;
    let after = spec_times_at(streams, pos.update(c, pos[c] + 1));
    assert forall|i: int| 0 <= i < times.len() implies ((#[trigger] times[i]) matches Some(u)
        ==> t <= u) by {
        lemma_root_is_earliest(times, i + k - 1);
    }
    assert forall|i: int| 0 <= i < after.len() implies ((#[trigger] after[i]) matches Some(u)
        ==> t <= u) by {
        if i == c {
            lemma_sat_time_rises(streams[c], pos[c], pos[c] + 1);
        } else {
            assert(after[i] == times[i]);
        }
    }
}

pub proof fn lemma_merge_array_rising<E, X>(
    streams: Seq<Seq<Result<Delta<u64, E>, X>>>,
    pos: Seq<int>,
    fuel: nat,
    now: u64,
)
    requires
        streams.len() >= 1,
        pos.len() == streams.len(),
        forall|i: int| 0 <= i < streams.len() ==> 0 <= #[trigger] pos[i] <= streams[i].len(),
        spec_none_before(spec_times_at(streams, pos), now),
    ensures
        spec_rising(spec_merge_array_abs_from(streams, pos, fuel), now),
    decreases fuel,
{
    let times = spec_times_at(streams, pos);
    if fuel == 0 || spec_node_time(times, 0) is None {
    } else {
        lemma_pick_is_earliest(streams, pos);
        let c = spec_node_pick(times, 0);
        if spec_fails_at(streams[c], pos[c] + 1) {
            lemma_rising_failure::<E, X>(streams[c][pos[c] + 1]->Err_0, now);
        } else {
            let after = pos.update(c, pos[c] + 1);
            let t = times[c]->Some_0;
            assert(now <= t);
            lemma_merge_array_rising(streams, after, (fuel - 1) as nat, t);
            lemma_rising_item(
                spec_timed(streams[c], pos[c]),
                spec_merge_array_abs_from(streams, after, (fuel - 1) as nat),
                now,
            );
        }
    }
}

/// A merge of many streams keeps time: the times that the deltas of the
/// merged stream add up to are the times at which the items stood in their
/// own streams, and they never fall.
pub proof fn lemma_merge_array_keeps_times<E, X>(array: Seq<Seq<Result<Delta<u64, E>, X>>>)
    ensures
        spec_rising(spec_merge_array_abs(array), 0),
        spec_to_times(spec_to_deltas(spec_merge_array_abs(array), 0), 0) == spec_as_times(
            spec_merge_array_abs(array),
        ),
{
    let m = spec_merge_array_abs(array);
    match spec_head_failure(array, array.len() as int) {
        Some(e) => {
            lemma_rising_failure::<E, X>(e, 0);
        },
        None => {
            let streams = spec_merged_streams(array);
            let pos = Seq::new(streams.len(), |i: int| 0int);
            lemma_merge_array_rising(
                streams,
                pos,
                spec_total_items(array, array.len() as int),
                0,
            );
        },
    }
    lemma_deltas_keep_times(m, 0);
}

/// Merges the streams of `array` into one. Every item keeps the time at
/// which it stood in its own stream; the deltas of the merged stream are
/// rebuilt from those times. Sums of deltas are held at the largest `u64`.
pub fn merge_events_array<E, X>(array: Vec<Vec<Result<Delta<u64, E>, X>>>) -> (r: Vec<
    Result<Delta<u64, E>, X>,
>)
    requires
        2 * array@.len() + 2 <= usize::MAX,
    ensures
        r@ == spec_to_deltas(spec_merge_array_abs(spec_streams(array@)), 0),
{
    let ghost streams_in = spec_streams(array@);
    let mut fuel: u128 = 0;
    let mut i: usize = 0;
    while i < array.len()
        invariant
            i <= array.len(),
            streams_in == spec_streams(array@),
            fuel == spec_total_items(streams_in, i as int),
            fuel <= i * usize::MAX,
        decreases array.len() - i,
    {
        assert((i + 1) * usize::MAX == i * usize::MAX + usize::MAX) by (nonlinear_arith);
        assert(i * usize::MAX <= usize::MAX * usize::MAX) by (nonlinear_arith)
            requires
                0 <= i <= usize::MAX,
        ;
        fuel = fuel + array[i].len() as u128;
        i += 1;
    }
    let mut out: Vec<Result<Delta<u64, E>, X>> = Vec::new();
    let mut tree = match BinaryTreeSequenceMerge::new(array) {
        Ok(tree) => tree,
        Err(e) => {
            proof {
                lemma_to_deltas_failure::<E, X>(e, 0);
            }
            out.push(Err(e));
            return out;
        },
    };
    let ghost streams = spec_merged_streams(streams_in);
    let ghost whole = spec_to_deltas(spec_merge_array_abs(streams_in), 0);
    let mut time: u64 = 0;
    assert(out@ + spec_to_deltas(
        spec_merge_array_abs_from(streams, tree.spec_taken(), fuel as nat),
        time,
    ) =~= whole);
    while fuel > 0
        invariant
            tree.wf(),
            tree.spec_sources() == streams,
            whole == spec_to_deltas(spec_merge_array_abs(spec_streams(array@)), 0),
            spec_none_before(tree.spec_times(), time),
            out@ + spec_to_deltas(
                spec_merge_array_abs_from(streams, tree.spec_taken(), fuel as nat),
                time,
            ) == whole,
        decreases fuel,
    {
        proof {
            tree.lemma_shape();
        }
        let ghost pos = tree.spec_taken();
        let ghost times = tree.spec_times();
        let ghost before = out@;
        let ghost rest = spec_merge_array_abs_from(streams, pos, fuel as nat);
        match tree.next() {
            Err(e) => {
                proof {
                    lemma_to_deltas_failure::<E, X>(e, time);
                    assert(rest == seq![Err::<Delta<u64, E>, X>(e)]);
                }
                out.push(Err(e));
                assert(out@ =~= before + spec_to_deltas(rest, time));
                return out;
            },
            Ok(None) => {
                assert(rest =~= Seq::<Result<Delta<u64, E>, X>>::empty());
                assert(out@ + Seq::<Result<Delta<u64, E>, X>>::empty() =~= out@);
                return out;
            },
            Ok(Some(item)) => {
                let mut ev = item;
                let ghost c = spec_node_pick(times, 0);
                let ghost timed = spec_timed(streams[c], pos[c]);
                let ghost tail = spec_merge_array_abs_from(
                    streams,
                    pos.update(c, pos[c] + 1),
                    (fuel - 1) as nat,
                );
                proof {
                    lemma_pick_is_earliest(streams, pos);
                    assert(rest == seq![Ok::<Delta<u64, E>, X>(timed)] + tail);
                    lemma_to_deltas_item(timed, tail, time);
                }
                let t: u64 = ev.delta;
                ev.delta = t - time;
                out.push(Ok(ev));
                time = t;
                fuel = fuel - 1;
                assert(out@ + spec_to_deltas(tail, time) =~= before + (seq![Ok(ev)]
                    + spec_to_deltas(tail, time)));
            },
        }
    }
    assert(spec_merge_array_abs_from(streams, tree.spec_taken(), 0) =~= Seq::<
        Result<Delta<u64, E>, X>,
    >::empty());
    assert(out@ + Seq::<Result<Delta<u64, E>, X>>::empty() =~= out@);
    out
}

} // verus!
