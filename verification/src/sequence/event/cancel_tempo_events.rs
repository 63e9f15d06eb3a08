use vstd::prelude::*;
use crate::events::BatchTempo;
use crate::sequence::common::join_stream;
use crate::sequence::common::spec_first_error;
use crate::sequence::common::spec_ok_prefix;
use crate::sequence::common::spec_stream;
use crate::sequence::common::split_stream;
use crate::sequence::event::delta::Delta;
use crate::sequence::event::filter_events::spec_carry;
use crate::sequence::event::filter_events::spec_filtered;

verus! {

/// The tempo in force before any tempo event, in microseconds per quarter
/// note.
pub const DEFAULT_TEMPO: u32 = 500000;

/// The divisor by which deltas are rescaled for a target tempo.
pub open spec fn spec_target_tempo_scaled(new_tempo: u32) -> int {
    (500000int * 500000int) / (new_tempo as int)
}

/// The tempo in force for item `n` of `s`: that of the last tempo event
/// among the first `n` items, or the default.
pub open spec fn spec_running_tempo<E: BatchTempo>(s: Seq<Delta<u64, E>>, n: int) -> u32
    decreases n,
{
    if n <= 0 {
        DEFAULT_TEMPO
    } else {
        match s[n - 1].event.spec_inner_tempo() {
            Some(t) => t,
            None => spec_running_tempo(s, n - 1),
        }
    }
}

/// The rescaled delta of item `i` of `s`: its delta times the tempo in
/// force, over the target divisor, plus the rescaled delta of a tempo event
/// that stood just before it.
pub open spec fn spec_cancelled_delta<E: BatchTempo>(
    s: Seq<Delta<u64, E>>,
    target: int,
    i: int,
) -> int
    decreases i,
{
    if i < 0 {
        0
    } else {
        s[i].delta * spec_running_tempo(s, i) / target + (if i > 0 && s[i
            - 1].event.spec_inner_tempo() is Some {
            spec_cancelled_delta(s, target, i - 1)
        } else {
            0
        })
    }
}

/// The first `n` items of `s` without the tempo events, each delta rescaled.
pub open spec fn spec_cancelled<E: BatchTempo>(s: Seq<Delta<u64, E>>, target: int, n: int) -> Seq<
    Delta<u64, E>,
>
    decreases n,
{
    if n <= 0 {
        Seq::empty()
    } else if s[n - 1].event.spec_inner_tempo() is Some {
        spec_cancelled(s, target, n - 1)
    } else {
        spec_cancelled(s, target, n - 1).push(
            Delta { delta: spec_cancelled_delta(s, target, n - 1) as u64, event: s[n - 1].event },
        )
    }
}

/// Whether every rescaled delta of `s` is still a `u64`.
pub open spec fn spec_cancelled_fits<E: BatchTempo>(s: Seq<Delta<u64, E>>, target: int) -> bool {
    forall|i: int| 0 <= i < s.len() ==> #[trigger] spec_cancelled_delta(s, target, i) <= u64::MAX
}

/// Removes the tempo events and rescales every delta as if the tempo had
/// been `new_tempo` throughout. The rescaled delta of a removed tempo event
/// is added to the event that follows it. The items before the first
/// failure are treated; the failure passes through.
pub fn cancel_tempo_events<E: BatchTempo, X>(
    iter: Vec<Result<Delta<u64, E>, X>>,
    new_tempo: u32,
) -> (r: Vec<Result<Delta<u64, E>, X>>)
    requires
        new_tempo > 0,
        spec_cancelled_fits(spec_ok_prefix(iter@), spec_target_tempo_scaled(new_tempo)),
    ensures
        r@ == spec_stream(
            spec_cancelled(
                spec_ok_prefix(iter@),
                spec_target_tempo_scaled(new_tempo),
                spec_ok_prefix(iter@).len() as int,
            ),
            spec_first_error(iter@),
        ),
{
    let (items, error) = split_stream(iter);
    let ghost s = items@;
    let ghost target = spec_target_tempo_scaled(new_tempo);
    let scaled: u64 = 250000000000u64 / (new_tempo as u64);
    assert(scaled == target && scaled > 0) by {
        assert(500000int * 500000int == 250000000000int);
        assert(250000000000u64 / (new_tempo as u64) >= 250000000000u64 / 0xFFFF_FFFFu64)
            by (nonlinear_arith)
            requires
                0 < new_tempo <= 0xFFFF_FFFFu64,
        ;
    }
    let mut out: Vec<Delta<u64, E>> = Vec::new();
    let mut extra_ticks: u64 = 0;
    let mut tempo: u32 = DEFAULT_TEMPO;
    let mut i: usize = 0;
    let n: usize = items.len();
    for e in it: items
        invariant
            it.seq() == s,
            s.len() == n,
            i == it.index(),
            scaled == target,
            scaled > 0,
            spec_cancelled_fits(s, target),
            tempo == spec_running_tempo(s, i as int),
            out@ == spec_cancelled(s, target, i as int),
            extra_ticks == (if i > 0 && s[i - 1].event.spec_inner_tempo() is Some {
                spec_cancelled_delta(s, target, i - 1)
            } else {
                0
            }),
    {
        assert(spec_cancelled_delta(s, target, i as int) <= u64::MAX);
        let Delta { delta, event } = e;
        assert(delta * tempo <= 0xFFFF_FFFF_FFFF_FFFF * 0xFFFF_FFFF) by (nonlinear_arith)
            requires
                0 <= delta <= 0xFFFF_FFFF_FFFF_FFFF,
                0 <= tempo <= 0xFFFF_FFFF,
        ;
        assert(delta * tempo / (scaled as int) >= 0) by (nonlinear_arith)
            requires
                0 <= delta,
                0 <= tempo,
                scaled > 0,
        ;
        let wide: u128 = (delta as u128) * (tempo as u128) / (scaled as u128) + (
        extra_ticks as u128);
        let new_delta: u64 = wide as u64;
        extra_ticks = 0;
        match event.inner_tempo() {
            Some(inner) => {
                tempo = inner;
                extra_ticks = new_delta;
            },
            None => {
                match event.without_tempo() {
                    Some(event) => {
                        out.push(Delta { delta: new_delta, event });
                    },
                    None => {},
                }
            },
        }
        i += 1;
    }
    join_stream(out, error)
}

/// For each item of `s`, whether it is no tempo event.
pub open spec fn spec_tempo_free_marks<E: BatchTempo>(s: Seq<Delta<u64, E>>) -> Seq<bool> {
    Seq::new(s.len(), |i: int| s[i].event.spec_inner_tempo() is None)
}

/// At the default tempo nothing is rescaled: where every tempo event of `s`
/// sets the default tempo, cancelling tempo to the default leaves exactly
/// what dropping the tempo events with carried deltas leaves.
pub proof fn lemma_cancel_at_default_tempo<E: BatchTempo>(s: Seq<Delta<u64, E>>, n: int)
    requires
        0 <= n <= s.len(),
        forall|i: int|
            0 <= i < s.len() ==> (#[trigger] s[i].event.spec_inner_tempo()) is None
                || s[i].event.spec_inner_tempo() == Some(DEFAULT_TEMPO),
    ensures
        spec_target_tempo_scaled(DEFAULT_TEMPO) == DEFAULT_TEMPO,
        spec_running_tempo(s, n) == DEFAULT_TEMPO,
        n < s.len() ==> spec_cancelled_delta(s, DEFAULT_TEMPO as int, n) == s[n].delta
            + spec_carry(s, spec_tempo_free_marks(s), n),
        spec_cancelled(s, DEFAULT_TEMPO as int, n) == spec_filtered(
            s,
            spec_tempo_free_marks(s),
            n,
        ),
    decreases n,
{
    assert((500000int * 500000int) / 500000int == 500000int) by (nonlinear_arith);
    let keep = spec_tempo_free_marks(s);
    if n > 0 {
        lemma_cancel_at_default_tempo(s, n - 1);
        assert(s[n - 1].event.spec_inner_tempo() is None || s[n - 1].event.spec_inner_tempo()
            == Some(DEFAULT_TEMPO));
    }
    if n < s.len() {
        let d = s[n].delta as int;
        assert(d * 500000 / 500000 == d) by (nonlinear_arith);
    }
}

} // verus!
