use vstd::prelude::*;
use crate::num::MIDINumInto;
use crate::sequence::common::join_stream;
use crate::sequence::common::spec_first_error;
use crate::sequence::common::spec_ok_prefix;
use crate::sequence::common::spec_stream;
use crate::sequence::common::split_stream;
use crate::sequence::event::delta::Delta;

verus! {

/// Names the numeric domain that [`TimeCaster::cast_event_delta`] casts to.
pub struct TimeCaster<DT>(pub DT);

/// The items of `s`, each delta cast to `DT`.
pub open spec fn spec_cast_deltas<D: MIDINumInto<DT>, DT, E>(s: Seq<Delta<D, E>>) -> Seq<
    Delta<DT, E>,
> {
    Seq::new(
        s.len(),
        |i: int| Delta { delta: s[i].delta.spec_midi_num_into(), event: s[i].event },
    )
}

impl<DT> TimeCaster<DT> {
    /// Casts the delta of every item before the first failure to `DT`; the
    /// failure passes through.
    pub fn cast_event_delta<D: MIDINumInto<DT>, E, X>(iter: Vec<Result<Delta<D, E>, X>>) -> (r:
        Vec<Result<Delta<DT, E>, X>>)
        ensures
            r@ == spec_stream(
                spec_cast_deltas::<D, DT, E>(spec_ok_prefix(iter@)),
                spec_first_error(iter@),
            ),
    {
        let (items, error) = split_stream(iter);
        let ghost s = items@;
        let mut out: Vec<Delta<DT, E>> = Vec::new();
        for e in it: items
            invariant
                it.seq() == s,
                out@ == spec_cast_deltas::<D, DT, E>(s).take(it.index() as int),
        {
            let Delta { delta, event } = e;
            out.push(Delta { delta: delta.midi_num_into(), event });
            assert(out@ =~= spec_cast_deltas::<D, DT, E>(s).take(it.index() + 1));
        }
        assert(spec_cast_deltas::<D, DT, E>(s).take(s.len() as int) =~= spec_cast_deltas::<
            D,
            DT,
            E,
        >(s));
        join_stream(out, error)
    }
}

} // verus!
