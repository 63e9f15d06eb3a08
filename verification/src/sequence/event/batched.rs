use vstd::prelude::*;
use crate::sequence::common::join_stream;
use crate::sequence::common::lemma_stream_parts;
use crate::sequence::common::spec_first_error;
use crate::sequence::common::spec_ok_prefix;
use crate::sequence::common::spec_stream;
use crate::sequence::common::split_stream;
use crate::sequence::event::delta::Delta;
use crate::sequence::event::track::Track;

verus! {

/// Events that stand at the same time, in their order.
#[derive(Debug, Clone, PartialEq, Eq)]
pub struct EventBatch<T> {
    events: Vec<T>,
}

impl<T> View for EventBatch<T> {
    type V = Seq<T>;

    closed spec fn view(&self) -> Seq<T> {
        self.events@
    }
}

impl<T> EventBatch<T> {
    pub fn new(events: Vec<T>) -> (r: Self)
        ensures
            r@ == events@,
    {
        Self { events }
    }

    /// The events of the batch, in their order.
    pub fn into_iter_inner(self) -> (r: Vec<T>)
        ensures
            r@ == self@,
    {
        self.events
    }

    /// The events of the batch, in their order.
    pub fn iter_inner(&self) -> (r: &Vec<T>)
        ensures
            r@ == self@,
    {
        &self.events
    }

    pub fn count(&self) -> (n: usize)
        ensures
            n == self@.len(),
    {
        self.events.len()
    }
}

/// The events `es` as items: the first with delta `delta`, the others with
/// delta zero.
pub open spec fn spec_batch_items<T>(delta: u64, es: Seq<T>) -> Seq<Delta<u64, T>> {
    Seq::new(
        es.len(),
        |j: int|
            Delta {
                delta: if j == 0 {
                    delta
                } else {
                    0
                },
                event: es[j],
            },
    )
}

/// Appends the items of a batch to `out`.
fn push_batch_items<T>(out: &mut Vec<Delta<u64, T>>, delta: u64, events: Vec<T>)
    ensures
        final(out)@ == old(out)@ + spec_batch_items(delta, events@),
{
    let ghost es = events@;
    let ghost first = delta;
    let mut delta = delta;
    for event in it: events
        invariant
            it.seq() == es,
            it.index() > 0 ==> delta == 0,
            out@ == old(out)@ + spec_batch_items(first, es).take(it.index() as int),
            it.index() == 0 ==> delta == first,
    {
        out.push(Delta { delta, event });
        delta = 0;
        assert(out@ =~= old(out)@ + spec_batch_items(first, es).take(it.index() + 1));
    }
    assert(spec_batch_items(first, es).take(es.len() as int) =~= spec_batch_items(
        first,
        es,
    ));
}

impl<T> Delta<u64, EventBatch<T>> {
    /// The events of the batch as items that borrow them: the first
    /// carries the batch's delta, the others zero.
    pub fn iter_events(&self) -> (r: Vec<Delta<u64, &T>>)
        ensures
            r@.len() == self.event@.len(),
            forall|j: int|
                0 <= j < r@.len() ==> *(#[trigger] r@[j]).event == self.event@[j] && r@[j].delta
                    == (if j == 0 {
                    self.delta
                } else {
                    0
                }),
    {
        let mut out: Vec<Delta<u64, &T>> = Vec::new();
        let mut j: usize = 0;
        while j < self.event.events.len()
            invariant
                j <= self.event.events@.len(),
                out@.len() == j,
                forall|x: int|
                    0 <= x < j ==> *(#[trigger] out@[x]).event == self.event.events@[x]
                        && out@[x].delta == (if x == 0 {
                        self.delta
                    } else {
                        0
                    }),
            decreases self.event.events@.len() - j,
        {
            let delta: u64 = if j == 0 {
                self.delta
            } else {
                0
            };
            out.push(Delta { delta, event: &self.event.events[j] });
            j += 1;
        }
        out
    }

    /// The events of the batch as items: the first carries the batch's
    /// delta, the others zero.
    pub fn into_iter_events(self) -> (r: Vec<Delta<u64, T>>)
        ensures
            r@ == spec_batch_items(self.delta, self.event@),
    {
        let mut out: Vec<Delta<u64, T>> = Vec::new();
        push_batch_items(&mut out, self.delta, self.event.events);
        assert(out@ =~= spec_batch_items(self.delta, self.event@));
        out
    }
}

/// The events `es` as items marked with `track`: the first with delta
/// `delta`, the others with delta zero.
pub open spec fn spec_track_batch_items<T>(delta: u64, es: Seq<T>, track: u32) -> Seq<
    Delta<u64, Track<T>>,
> {
    Seq::new(
        es.len(),
        |j: int|
            Delta {
                delta: if j == 0 {
                    delta
                } else {
                    0
                },
                event: Track { event: es[j], track },
            },
    )
}

impl<T> Delta<u64, Track<EventBatch<T>>> {
    /// The events of the batch as items that borrow them, marked with the
    /// batch's track: the first carries the batch's delta, the others
    /// zero.
    pub fn iter_events(&self) -> (r: Vec<Delta<u64, Track<&T>>>)
        ensures
            r@.len() == self.event.event@.len(),
            forall|j: int|
                0 <= j < r@.len() ==> *(#[trigger] r@[j]).event.event == self.event.event@[j]
                    && r@[j].event.track == self.event.track && r@[j].delta == (if j == 0 {
                    self.delta
                } else {
                    0
                }),
    {
        let mut out: Vec<Delta<u64, Track<&T>>> = Vec::new();
        let mut j: usize = 0;
        while j < self.event.event.events.len()
            invariant
                j <= self.event.event.events@.len(),
                out@.len() == j,
                forall|x: int|
                    0 <= x < j ==> *(#[trigger] out@[x]).event.event == self.event.event.events@[x]
                        && out@[x].event.track == self.event.track && out@[x].delta == (if x
                        == 0 {
                        self.delta
                    } else {
                        0
                    }),
            decreases self.event.event.events@.len() - j,
        {
            let delta: u64 = if j == 0 {
                self.delta
            } else {
                0
            };
            out.push(
                Delta {
                    delta,
                    event: Track { event: &self.event.event.events[j], track: self.event.track },
                },
            );
            j += 1;
        }
        out
    }

    /// The events of the batch as items marked with the batch's track: the
    /// first carries the batch's delta, the others zero.
    pub fn into_iter(self) -> (r: Vec<Delta<u64, Track<T>>>)
        ensures
            r@ == spec_track_batch_items(self.delta, self.event.event@, self.event.track),
    {
        let Delta { delta, event } = self;
        let Track { event: inner, track } = event;
        let ghost es = inner@;
        let ghost first = delta;
        let mut delta = delta;
        let mut out: Vec<Delta<u64, Track<T>>> = Vec::new();
        for event in it: inner.events
            invariant
                it.seq() == es,
                it.index() > 0 ==> delta == 0,
                it.index() == 0 ==> delta == first,
                out@ == spec_track_batch_items(first, es, track).take(it.index() as int),
        {
            out.push(Delta { delta, event: Track { event, track } });
            delta = 0;
            assert(out@ =~= spec_track_batch_items(first, es, track).take(it.index() + 1));
        }
        assert(spec_track_batch_items(first, es, track).take(es.len() as int)
            =~= spec_track_batch_items(first, es, track));
        out
    }
}

/// The first `n` items of `s` in batches, each as its delta and its
/// events: an item with a delta above zero opens a batch, and so does the
/// first item; every other item joins the batch before it.
pub open spec fn spec_batches<E>(s: Seq<Delta<u64, E>>, n: int) -> Seq<(u64, Seq<E>)>
    decreases n,
{
    if n <= 0 {
        Seq::empty()
    } else if n == 1 || s[n - 1].delta > 0 {
        spec_batches(s, n - 1).push((s[n - 1].delta, seq![s[n - 1].event]))
    } else {
        let before = spec_batches(s, n - 1);
        before.drop_last().push((before.last().0, before.last().1.push(s[n - 1].event)))
    }
}

/// No batch is empty, and every batch but the first stands later than the
/// batch before it.
pub proof fn lemma_batches_shape<E>(s: Seq<Delta<u64, E>>, n: int)
    requires
        0 <= n <= s.len(),
    ensures
        n > 0 ==> spec_batches(s, n).len() > 0,
        spec_batches(s, n).len() <= n,
        forall|i: int|
            0 <= i < spec_batches(s, n).len() ==> (#[trigger] spec_batches(s, n)[i]).1.len() > 0,
        forall|i: int| 0 < i < spec_batches(s, n).len() ==> (#[trigger] spec_batches(s, n)[i]).0 > 0,
    decreases n,
{
    if n > 0 {
        lemma_batches_shape(s, n - 1);
        let before = spec_batches(s, n - 1);
        let now = spec_batches(s, n);
        if n == 1 || s[n - 1].delta > 0 {
            assert forall|i: int| 0 <= i < now.len() implies (#[trigger] now[i]).1.len() > 0 by {
                if i < before.len() {
                    assert(now[i] == before[i]);
                }
            }
            assert forall|i: int| 0 < i < now.len() implies (#[trigger] now[i]).0 > 0 by {
                if i < before.len() {
                    assert(now[i] == before[i]);
                }
            }
        } else {
            assert forall|i: int| 0 <= i < now.len() implies (#[trigger] now[i]).1.len() > 0 by {
                if i < before.len() - 1 {
                    assert(now[i] == before[i]);
                }
            }
            assert forall|i: int| 0 < i < now.len() implies (#[trigger] now[i]).0 > 0 by {
                if i < before.len() - 1 {
                    assert(now[i] == before[i]);
                } else {
                    assert(now[i].0 == before[i].0);
                }
            }
        }
    }
}

/// The batches of a stream as deltas and events.
pub open spec fn spec_batch_views<E>(b: Seq<Delta<u64, EventBatch<E>>>) -> Seq<(u64, Seq<E>)> {
    Seq::new(b.len(), |i: int| (b[i].delta, b[i].event@))
}

/// The items of the first `n` batches of `b`, one batch after the other.
pub open spec fn spec_flattened<E>(b: Seq<Delta<u64, EventBatch<E>>>, n: int) -> Seq<
    Delta<u64, E>,
>
    decreases n,
{
    if n <= 0 {
        Seq::empty()
    } else {
        spec_flattened(b, n - 1) + spec_batch_items(b[n - 1].delta, b[n - 1].event@)
    }
}

/// The items of the first `n` batches of `v`, given as deltas and events,
/// one batch after the other.
pub open spec fn spec_flattened_views<E>(v: Seq<(u64, Seq<E>)>, n: int) -> Seq<Delta<u64, E>>
    decreases n,
{
    if n <= 0 {
        Seq::empty()
    } else {
        spec_flattened_views(v, n - 1) + spec_batch_items(v[n - 1].0, v[n - 1].1)
    }
}

pub proof fn lemma_flattened_by_views<E>(b: Seq<Delta<u64, EventBatch<E>>>, n: int)
    requires
        0 <= n <= b.len(),
    ensures
        spec_flattened(b, n) == spec_flattened_views(spec_batch_views(b), n),
    decreases n,
{
    if n > 0 {
        lemma_flattened_by_views(b, n - 1);
    }
}

pub proof fn lemma_flattened_prefix<E>(v: Seq<(u64, Seq<E>)>, w: Seq<(u64, Seq<E>)>, n: int)
    requires
        0 <= n <= v.len(),
        n <= w.len(),
        forall|i: int| 0 <= i < n ==> v[i] == w[i],
    ensures
        spec_flattened_views(v, n) == spec_flattened_views(w, n),
    decreases n,
{
    if n > 0 {
        lemma_flattened_prefix(v, w, n - 1);
    }
}

/// Taking batches apart undoes the gathering into batches: the items of
/// the batches of the first `n` items of `s` are those items.
pub proof fn lemma_flatten_undoes_batches<E>(s: Seq<Delta<u64, E>>, n: int)
    requires
        0 <= n <= s.len(),
    ensures
        spec_flattened_views(spec_batches(s, n), spec_batches(s, n).len() as int) == s.take(n),
    decreases n,
{
    let now = spec_batches(s, n);
    if n == 0 {
        assert(s.take(0) =~= Seq::<Delta<u64, E>>::empty());
    } else {
        lemma_flatten_undoes_batches(s, n - 1);
        lemma_batches_shape(s, n - 1);
        let before = spec_batches(s, n - 1);
        let m = before.len() as int;
        if n == 1 || s[n - 1].delta > 0 {
            lemma_flattened_prefix(now, before, m);
            assert(spec_batch_items(s[n - 1].delta, seq![s[n - 1].event]) =~= seq![s[n - 1]]);
            assert(s.take(n) =~= s.take(n - 1) + seq![s[n - 1]]);
        } else {
            lemma_flattened_prefix(now, before, m - 1);
            let last = before[m - 1];
            assert(spec_batch_items(last.0, last.1.push(s[n - 1].event)) =~= spec_batch_items(
                last.0,
                last.1,
            ) + seq![s[n - 1]]);
            assert(s.take(n) =~= s.take(n - 1) + seq![s[n - 1]]);
            assert(spec_flattened_views(now, m) =~= spec_flattened_views(before, m) + seq![
                s[n - 1],
            ]);
        }
    }
}

/// Batches that hold what the gathering of `s` into batches gives are
/// taken apart into `s`.
pub proof fn lemma_unbatch_inverts_batch<E>(s: Seq<Delta<u64, E>>, b: Seq<Delta<u64, EventBatch<E>>>)
    requires
        spec_batch_views(b) == spec_batches(s, s.len() as int),
    ensures
        spec_flattened(b, b.len() as int) == s,
{
    lemma_flattened_by_views(b, b.len() as int);
    lemma_flatten_undoes_batches(s, s.len() as int);
    assert(s.take(s.len() as int) =~= s);
}

/// The items of the first `n` batches of `b`, one batch after the other,
/// each item marked with the track of its batch.
pub open spec fn spec_flattened_tracks<E>(
    b: Seq<Delta<u64, Track<EventBatch<E>>>>,
    n: int,
) -> Seq<Delta<u64, Track<E>>>
    decreases n,
{
    if n <= 0 {
        Seq::empty()
    } else {
        spec_flattened_tracks(b, n - 1) + Seq::new(
            b[n - 1].event.event@.len(),
            |j: int|
                Delta {
                    delta: if j == 0 {
                        b[n - 1].delta
                    } else {
                        0
                    },
                    event: Track { event: b[n - 1].event.event@[j], track: b[n - 1].event.track },
                },
        )
    }
}

/// Gathers the items before the first failure into batches of events that
/// stand at the same time; the failure passes through.
pub fn convert_events_into_batches<E, X>(iter: Vec<Result<Delta<u64, E>, X>>) -> (r: Vec<
    Result<Delta<u64, EventBatch<E>>, X>,
>)
    ensures
        spec_first_error(r@) == spec_first_error(iter@),
        spec_batch_views(spec_ok_prefix(r@)) == spec_batches(
            spec_ok_prefix(iter@),
            spec_ok_prefix(iter@).len() as int,
        ),
        r@ == spec_stream(spec_ok_prefix(r@), spec_first_error(iter@)),
{
    let (items, error) = split_stream(iter);
    let ghost s = items@;
    let mut out: Vec<Delta<u64, EventBatch<E>>> = Vec::new();
    let mut current: Vec<E> = Vec::new();
    let mut current_delta: u64 = 0;
    let mut i: usize = 0;
    let n: usize = items.len();
    for e in it: items
        invariant
            it.seq() == s,
            s.len() == n,
            i == it.index(),
            i == 0 ==> out@.len() == 0 && current@.len() == 0,
            i > 0 ==> current@.len() > 0 && spec_batches(s, i as int) == spec_batch_views(
                out@,
            ).push((current_delta, current@)),
    {
        let Delta { delta, event } = e;
        let ghost before_out = out@;
        let ghost before_current = current@;
        let ghost before_delta = current_delta;
        if i > 0 && delta > 0 {
            let full = current;
            current = Vec::new();
            out.push(Delta { delta: current_delta, event: EventBatch { events: full } });
            assert(spec_batch_views(out@) =~= spec_batch_views(before_out).push(
                (before_delta, before_current),
            ));
            current_delta = delta;
        } else if i == 0 {
            current_delta = delta;
        }
        current.push(event);
        i += 1;
        proof {
            if i > 1 && delta == 0 {
                let prev = spec_batches(s, i - 1);
                assert(prev.drop_last() =~= spec_batch_views(out@));
                assert(spec_batches(s, i as int) =~= spec_batch_views(out@).push(
                    (current_delta, current@),
                ));
            } else {
                assert(current@ =~= seq![event]);
            }
        }
    }
    if current.len() > 0 {
        let ghost before_out = out@;
        out.push(Delta { delta: current_delta, event: EventBatch { events: current } });
        assert(spec_batch_views(out@) =~= spec_batch_views(before_out).push(
            (current_delta, current@),
        ));
    } else {
        assert(spec_batch_views(out@) =~= spec_batches(s, 0));
    }
    let ghost batches = out@;
    let r = join_stream(out, error);
    proof {
        lemma_stream_parts(batches, error);
    }
    r
}

/// Takes the batches before the first failure apart into their events:
/// the first event of a batch carries the batch's delta, the others zero.
/// The failure passes through.
pub fn flatten_batches_to_events<E, X>(iter: Vec<Result<Delta<u64, EventBatch<E>>, X>>) -> (r:
    Vec<Result<Delta<u64, E>, X>>)
    ensures
        r@ == spec_stream(
            spec_flattened(spec_ok_prefix(iter@), spec_ok_prefix(iter@).len() as int),
            spec_first_error(iter@),
        ),
{
    let (batches, error) = split_stream(iter);
    let ghost b = batches@;
    let mut out: Vec<Delta<u64, E>> = Vec::new();
    let mut i: usize = 0;
    let n: usize = batches.len();
    for batch in it: batches
        invariant
            it.seq() == b,
            b.len() == n,
            i == it.index(),
            out@ == spec_flattened(b, i as int),
    {
        let Delta { delta, event } = batch;
        push_batch_items(&mut out, delta, event.events);
        i += 1;
    }
    join_stream(out, error)
}

/// Takes the batches before the first failure apart into their events,
/// each marked with the track of its batch. The failure passes through.
pub fn flatten_track_batches_to_events<E, X>(
    iter: Vec<Result<Delta<u64, Track<EventBatch<E>>>, X>>,
) -> (r: Vec<Result<Delta<u64, Track<E>>, X>>)
    ensures
        r@ == spec_stream(
            spec_flattened_tracks(spec_ok_prefix(iter@), spec_ok_prefix(iter@).len() as int),
            spec_first_error(iter@),
        ),
{
    let (batches, error) = split_stream(iter);
    let ghost b = batches@;
    let mut out: Vec<Delta<u64, Track<E>>> = Vec::new();
    let mut i: usize = 0;
    let n: usize = batches.len();
    for batch in it: batches
        invariant
            it.seq() == b,
            b.len() == n,
            i == it.index(),
            out@ == spec_flattened_tracks(b, i as int),
    {
        let Delta { delta, event } = batch;
        let Track { event: inner, track } = event;
        let ghost es = inner@;
        let ghost start = out@;
        let mut delta = delta;
        let ghost first = delta;
        for event in jt: inner.events
            invariant
                jt.seq() == es,
                jt.index() > 0 ==> delta == 0,
                jt.index() == 0 ==> delta == first,
                out@ == start + Seq::new(
                    es.len(),
                    |j: int|
                        Delta {
                            delta: if j == 0 {
                                first
                            } else {
                                0
                            },
                            event: Track { event: es[j], track },
                        },
                ).take(jt.index() as int),
        {
            out.push(Delta { delta, event: Track { event, track } });
            delta = 0;
            assert(out@ =~= start + Seq::new(
                es.len(),
                |j: int|
                    Delta {
                        delta: if j == 0 {
                            first
                        } else {
                            0
                        },
                        event: Track { event: es[j], track },
                    },
            ).take(jt.index() + 1));
        }
        assert(out@ =~= spec_flattened_tracks(b, i + 1));
        i += 1;
    }
    join_stream(out, error)
}

} // verus!
