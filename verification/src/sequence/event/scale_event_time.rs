use vstd::prelude::*;
use crate::sequence::common::join_stream;
use crate::sequence::common::spec_first_error;
use crate::sequence::common::spec_ok_prefix;
use crate::sequence::common::spec_stream;
use crate::sequence::common::split_stream;
use crate::sequence::event::delta::Delta;

verus! {

/// The items of `s`, each delta multiplied by `multiplier`.
pub open spec fn spec_scaled_time<E>(s: Seq<Delta<u64, E>>, multiplier: u64) -> Seq<
    Delta<u64, E>,
> {
    Seq::new(
        s.len(),
        |i: int| Delta { delta: (s[i].delta * multiplier) as u64, event: s[i].event },
    )
}

/// Whether every delta of `s`, multiplied by `multiplier`, is still a `u64`.
pub open spec fn spec_scaled_time_fits<E>(s: Seq<Delta<u64, E>>, multiplier: u64) -> bool {
    forall|i: int| 0 <= i < s.len() ==> (#[trigger] s[i]).delta * multiplier <= u64::MAX
}

/// The items of `s`, each delta taken from `from` ticks per quarter note to
/// `to`, rounded down.
pub open spec fn spec_scaled_ppq<E>(s: Seq<Delta<u64, E>>, from: u64, to: u64) -> Seq<
    Delta<u64, E>,
> {
    Seq::new(
        s.len(),
        |i: int| Delta { delta: (s[i].delta * to / from as int) as u64, event: s[i].event },
    )
}

/// Whether every delta of `s`, taken from `from` to `to`, is still a `u64`.
pub open spec fn spec_scaled_ppq_fits<E>(s: Seq<Delta<u64, E>>, from: u64, to: u64) -> bool {
    forall|i: int| 0 <= i < s.len() ==> (#[trigger] s[i]).delta * to / from as int <= u64::MAX
}

/// Multiplies the delta of every item before the first failure by
/// `multiplier`; the failure passes through.
pub fn scale_event_time<E, X>(iter: Vec<Result<Delta<u64, E>, X>>, multiplier: u64) -> (r: Vec<
    Result<Delta<u64, E>, X>,
>)
    requires
        spec_scaled_time_fits(spec_ok_prefix(iter@), multiplier),
    ensures
        r@ == spec_stream(
            spec_scaled_time(spec_ok_prefix(iter@), multiplier),
            spec_first_error(iter@),
        ),
{
    let (items, error) = split_stream(iter);
    let ghost s = items@;
    let mut out: Vec<Delta<u64, E>> = Vec::new();
    for e in it: items
        invariant
            it.seq() == s,
            spec_scaled_time_fits(s, multiplier),
            out@ == spec_scaled_time(s, multiplier).take(it.index() as int),
    {
        let ghost at = it.index() as int;
        assert(s[at].delta * multiplier <= u64::MAX);
        let Delta { delta, event } = e;
        out.push(Delta { delta: delta * multiplier, event });
        assert(out@ =~= spec_scaled_time(s, multiplier).take(at + 1));
    }
    assert(spec_scaled_time(s, multiplier).take(s.len() as int) =~= spec_scaled_time(
        s,
        multiplier,
    ));
    join_stream(out, error)
}

/// Takes the delta of every item before the first failure from `from`
/// ticks per quarter note to `to`; the failure passes through.
pub fn scale_event_ppq<E, X>(iter: Vec<Result<Delta<u64, E>, X>>, from: u64, to: u64) -> (r: Vec<
    Result<Delta<u64, E>, X>,
>)
    requires
        from > 0,
        spec_scaled_ppq_fits(spec_ok_prefix(iter@), from, to),
    ensures
        r@ == spec_stream(
            spec_scaled_ppq(spec_ok_prefix(iter@), from, to),
            spec_first_error(iter@),
        ),
{
    let (items, error) = split_stream(iter);
    let ghost s = items@;
    let mut out: Vec<Delta<u64, E>> = Vec::new();
    for e in it: items
        invariant
            it.seq() == s,
            from > 0,
            spec_scaled_ppq_fits(s, from, to),
            out@ == spec_scaled_ppq(s, from, to).take(it.index() as int),
    {
        let ghost at = it.index() as int;
        assert(s[at].delta * to / from as int <= u64::MAX);
        let Delta { delta, event } = e;
        assert(delta * to <= 0xFFFF_FFFF_FFFF_FFFF * 0xFFFF_FFFF_FFFF_FFFF) by (nonlinear_arith)
            requires
                0 <= delta <= 0xFFFF_FFFF_FFFF_FFFF,
                0 <= to <= 0xFFFF_FFFF_FFFF_FFFF,
        ;
        let wide: u128 = (delta as u128) * (to as u128) / (from as u128);
        out.push(Delta { delta: wide as u64, event });
        assert(out@ =~= spec_scaled_ppq(s, from, to).take(at + 1));
    }
    assert(spec_scaled_ppq(s, from, to).take(s.len() as int) =~= spec_scaled_ppq(s, from, to));
    join_stream(out, error)
}

/// Another name for [`scale_event_time`].
pub fn scale_time<E, X>(iter: Vec<Result<Delta<u64, E>, X>>, multiplier: u64) -> (r: Vec<
    Result<Delta<u64, E>, X>,
>)
    requires
        spec_scaled_time_fits(spec_ok_prefix(iter@), multiplier),
    ensures
        r@ == spec_stream(
            spec_scaled_time(spec_ok_prefix(iter@), multiplier),
            spec_first_error(iter@),
        ),
{
    scale_event_time(iter, multiplier)
}

/// Another name for [`scale_event_ppq`].
pub fn change_ppq<E, X>(iter: Vec<Result<Delta<u64, E>, X>>, from: u64, to: u64) -> (r: Vec<
    Result<Delta<u64, E>, X>,
>)
    requires
        from > 0,
        spec_scaled_ppq_fits(spec_ok_prefix(iter@), from, to),
    ensures
        r@ == spec_stream(
            spec_scaled_ppq(spec_ok_prefix(iter@), from, to),
            spec_first_error(iter@),
        ),
{
    scale_event_ppq(iter, from, to)
}

} // verus!
