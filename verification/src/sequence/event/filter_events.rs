use vstd::prelude::*;
use crate::events::MIDIEventEnum;
use crate::sequence::common::join_stream;
use crate::sequence::common::spec_first_error;
use crate::sequence::common::spec_ok_prefix;
use crate::sequence::common::spec_stream;
use crate::sequence::common::split_stream;
use crate::sequence::event::delta::Delta;

verus! {

/// The sum of the first `n` deltas of `s`: the time at which item `n - 1`
/// stands, and the whole duration of `s` when `n` is its length.
pub open spec fn spec_ticks_before<E>(s: Seq<Delta<u64, E>>, n: int) -> int
    decreases n,
{
    if n <= 0 {
        0
    } else {
        spec_ticks_before(s, n - 1) + s[n - 1].delta
    }
}

/// The sum of all deltas of `s`.
pub open spec fn spec_total_ticks<E>(s: Seq<Delta<u64, E>>) -> int {
    spec_ticks_before(s, s.len() as int)
}

/// The time carried after the first `n` items of `s`: the deltas of the
/// dropped items since the last kept one.
pub open spec fn spec_carry<E>(s: Seq<Delta<u64, E>>, keep: Seq<bool>, n: int) -> int
    decreases n,
{
    if n <= 0 || keep[n - 1] {
        0
    } else {
        spec_carry(s, keep, n - 1) + s[n - 1].delta
    }
}

/// What is left of the first `n` items of `s` when only those marked in
/// `keep` stay: each kept item stands at the time at which it stood, its
/// delta taking up the deltas of the items dropped before it.
pub open spec fn spec_filtered<E>(s: Seq<Delta<u64, E>>, keep: Seq<bool>, n: int) -> Seq<
    Delta<u64, E>,
>
    decreases n,
{
    if n <= 0 {
        Seq::empty()
    } else if keep[n - 1] {
        spec_filtered(s, keep, n - 1).push(
            Delta {
                delta: (s[n - 1].delta + spec_carry(s, keep, n - 1)) as u64,
                event: s[n - 1].event,
            },
        )
    } else {
        spec_filtered(s, keep, n - 1)
    }
}

pub proof fn lemma_ticks_monotone<E>(s: Seq<Delta<u64, E>>, a: int, b: int)
    requires
        0 <= a <= b,
    ensures
        0 <= spec_ticks_before(s, a) <= spec_ticks_before(s, b),
    decreases b,
{
    if a < b {
        lemma_ticks_monotone(s, a, b - 1);
    } else if a > 0 {
        lemma_ticks_monotone(s, a - 1, a - 1);
    }
}

pub proof fn lemma_ticks_of_prefix<E>(s: Seq<Delta<u64, E>>, d: Delta<u64, E>, n: int)
    requires
        0 <= n <= s.len(),
    ensures
        spec_ticks_before(s.push(d), n) == spec_ticks_before(s, n),
    decreases n,
{
    if n > 0 {
        lemma_ticks_of_prefix(s, d, n - 1);
    }
}

pub proof fn lemma_ticks_of_push<E>(s: Seq<Delta<u64, E>>, d: Delta<u64, E>)
    ensures
        spec_total_ticks(s.push(d)) == spec_total_ticks(s) + d.delta,
{
    lemma_ticks_of_prefix(s, d, s.len() as int);
}

/// Filtering keeps time: after any number of items, the duration of what
/// came out plus the time still carried is the duration of what went in.
/// So every kept item stands at the time at which it stood before, and what
/// came out of a prefix is a prefix of what comes out of the whole.
pub proof fn lemma_filter_keeps_time<E>(s: Seq<Delta<u64, E>>, keep: Seq<bool>, n: int)
    requires
        0 <= n <= s.len(),
        keep.len() == s.len(),
        spec_total_ticks(s) <= u64::MAX,
    ensures
        spec_total_ticks(spec_filtered(s, keep, n)) + spec_carry(s, keep, n) == spec_ticks_before(
            s,
            n,
        ),
        0 <= spec_carry(s, keep, n),
        spec_filtered(s, keep, n).len() <= n,
        spec_filtered(s, keep, n).len() <= spec_filtered(s, keep, s.len() as int).len(),
        spec_filtered(s, keep, n) == spec_filtered(s, keep, s.len() as int).take(
            spec_filtered(s, keep, n).len() as int,
        ),
        n > 0 && keep[n - 1] ==> spec_filtered(s, keep, n).last().event == s[n - 1].event
            && spec_total_ticks(spec_filtered(s, keep, n)) == spec_ticks_before(s, n),
    decreases s.len() - n,
{
    lemma_filter_prefix(s, keep, n);
    if n < s.len() {
        lemma_filter_keeps_time(s, keep, n + 1);
        let whole = spec_filtered(s, keep, s.len() as int);
        let next = spec_filtered(s, keep, n + 1);
        let here = spec_filtered(s, keep, n);
        assert(here =~= next.take(here.len() as int));
        assert(next == whole.take(next.len() as int));
        assert(here.len() <= next.len() <= whole.len());
        assert forall|j: int| 0 <= j < here.len() implies here[j] == whole[j] by {
            assert(here[j] == next.take(here.len() as int)[j]);
            assert(next[j] == whole.take(next.len() as int)[j]);
        }
        assert(here =~= whole.take(here.len() as int));
    } else {
        let whole = spec_filtered(s, keep, s.len() as int);
        assert(whole =~= whole.take(whole.len() as int));
    }
}

/// The first half of [`lemma_filter_keeps_time`], by induction from the
/// front.
pub proof fn lemma_filter_prefix<E>(s: Seq<Delta<u64, E>>, keep: Seq<bool>, n: int)
    requires
        0 <= n <= s.len(),
        keep.len() == s.len(),
        spec_total_ticks(s) <= u64::MAX,
    ensures
        spec_total_ticks(spec_filtered(s, keep, n)) + spec_carry(s, keep, n) == spec_ticks_before(
            s,
            n,
        ),
        0 <= spec_carry(s, keep, n),
        spec_filtered(s, keep, n).len() <= n,
        n > 0 && keep[n - 1] ==> spec_filtered(s, keep, n).last().event == s[n - 1].event
            && spec_total_ticks(spec_filtered(s, keep, n)) == spec_ticks_before(s, n),
    decreases n,
{
    if n > 0 {
        lemma_filter_prefix(s, keep, n - 1);
        lemma_ticks_monotone(s, n, s.len() as int);
        lemma_ticks_monotone(s, n - 1, n);
        if keep[n - 1] {
            let before = spec_filtered(s, keep, n - 1);
            let item = Delta {
                delta: (s[n - 1].delta + spec_carry(s, keep, n - 1)) as u64,
                event: s[n - 1].event,
            };
            lemma_ticks_monotone(before, 0, before.len() as int);
            lemma_ticks_of_push(before, item);
        }
    }
}

/// Drops the items that `keep` does not mark, and adds the delta of each
/// dropped item to the next one that stays.
pub fn filter_marked<E>(items: Vec<Delta<u64, E>>, keep: &Vec<bool>) -> (r: Vec<Delta<u64, E>>)
    requires
        keep@.len() == items@.len(),
        spec_total_ticks(items@) <= u64::MAX,
    ensures
        r@ == spec_filtered(items@, keep@, items@.len() as int),
{
    let ghost s = items@;
    let mut out: Vec<Delta<u64, E>> = Vec::new();
    let mut extra_delta: u64 = 0;
    let mut i: usize = 0;
    let n: usize = items.len();
    for e in it: items
        invariant
            it.seq() == s,
            s.len() == n,
            i == it.index(),
            keep@.len() == s.len(),
            spec_total_ticks(s) <= u64::MAX,
            out@ == spec_filtered(s, keep@, i as int),
            extra_delta == spec_carry(s, keep@, i as int),
    {
        proof {
            lemma_filter_prefix(s, keep@, i as int);
            lemma_filter_prefix(s, keep@, i + 1);
            lemma_ticks_monotone(s, i + 1, s.len() as int);
            lemma_ticks_monotone(spec_filtered(s, keep@, i as int), 0, spec_filtered(s, keep@, i as int).len() as int);
        }
        let Delta { delta, event } = e;
        if keep[i] {
            out.push(Delta { delta: delta + extra_delta, event });
            extra_delta = 0;
        } else {
            extra_delta = extra_delta + delta;
        }
        i += 1;
    }
    out
}

/// Keeps the events that satisfy `predicate`. The delta of each dropped
/// event is carried over to the next event that stays, so that every event
/// that stays keeps its place in time. The items before the first failure
/// are filtered; the failure itself passes through.
pub fn filter_events<E, X, F: Fn(&Delta<u64, E>) -> bool>(
    iter: Vec<Result<Delta<u64, E>, X>>,
    predicate: F,
) -> (r: Vec<Result<Delta<u64, E>, X>>)
    requires
        forall|e: &Delta<u64, E>| predicate.requires((e,)),
        spec_total_ticks(spec_ok_prefix(iter@)) <= u64::MAX,
    ensures
        exists|keep: Seq<bool>|
            {
                &&& keep.len() == spec_ok_prefix(iter@).len()
                &&& forall|i: int|
                    0 <= i < keep.len() ==> predicate.ensures(
                        (&spec_ok_prefix(iter@)[i],),
                        #[trigger] keep[i],
                    )
                &&& r@ == spec_stream(
                    spec_filtered(spec_ok_prefix(iter@), keep, keep.len() as int),
                    spec_first_error(iter@),
                )
            },
{
    let (items, error) = split_stream(iter);
    let mut keep: Vec<bool> = Vec::new();
    let mut i: usize = 0;
    while i < items.len()
        invariant
            i <= items.len(),
            keep@.len() == i,
            forall|e: &Delta<u64, E>| predicate.requires((e,)),
            forall|j: int| 0 <= j < i ==> predicate.ensures((&items@[j],), #[trigger] keep@[j]),
        decreases items.len() - i,
    {
        let b: bool = predicate(&items[i]);
        keep.push(b);
        i += 1;
    }
    let out = filter_marked(items, &keep);
    join_stream(out, error)
}

/// Keeps the note-on and note-off events only, as [`filter_events`] does.
pub fn filter_note_events<E: MIDIEventEnum, X>(iter: Vec<Result<Delta<u64, E>, X>>) -> (r: Vec<
    Result<Delta<u64, E>, X>,
>)
    requires
        spec_total_ticks(spec_ok_prefix(iter@)) <= u64::MAX,
    ensures
        r@ == spec_stream(
            spec_filtered(
                spec_ok_prefix(iter@),
                spec_note_marks(spec_ok_prefix(iter@), true),
                spec_ok_prefix(iter@).len() as int,
            ),
            spec_first_error(iter@),
        ),
{
    let (items, error) = split_stream(iter);
    let keep = note_marks(&items, true);
    let out = filter_marked(items, &keep);
    join_stream(out, error)
}

/// Drops the note-on and note-off events, as [`filter_events`] does.
pub fn filter_non_note_events<E: MIDIEventEnum, X>(iter: Vec<Result<Delta<u64, E>, X>>) -> (r:
    Vec<Result<Delta<u64, E>, X>>)
    requires
        spec_total_ticks(spec_ok_prefix(iter@)) <= u64::MAX,
    ensures
        r@ == spec_stream(
            spec_filtered(
                spec_ok_prefix(iter@),
                spec_note_marks(spec_ok_prefix(iter@), false),
                spec_ok_prefix(iter@).len() as int,
            ),
            spec_first_error(iter@),
        ),
{
    let (items, error) = split_stream(iter);
    let keep = note_marks(&items, false);
    let out = filter_marked(items, &keep);
    join_stream(out, error)
}

/// For each item of `s`, whether its being a note event equals `notes`.
pub open spec fn spec_note_marks<E: MIDIEventEnum>(s: Seq<Delta<u64, E>>, notes: bool) -> Seq<
    bool,
> {
    Seq::new(s.len(), |i: int| s[i].event.spec_event().spec_is_note() == notes)
}

/// Computes [`spec_note_marks`].
pub fn note_marks<E: MIDIEventEnum>(items: &Vec<Delta<u64, E>>, notes: bool) -> (keep: Vec<bool>)
    ensures
        keep@ == spec_note_marks(items@, notes),
{
    let mut keep: Vec<bool> = Vec::new();
    let mut i: usize = 0;
    while i < items.len()
        invariant
            i <= items.len(),
            keep@ == spec_note_marks(items@, notes).take(i as int),
        decreases items.len() - i,
    {
        let b: bool = items[i].event.as_event().is_note() == notes;
        keep.push(b);
        i += 1;
        assert(keep@ =~= spec_note_marks(items@, notes).take(i as int));
    }
    assert(spec_note_marks(items@, notes).take(i as int) =~= spec_note_marks(items@, notes));
    keep
}

} // verus!
