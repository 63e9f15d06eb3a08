use vstd::prelude::*;
use crate::events::encode_var_length_value;
use crate::events::spec_encode_var_length_value;
use crate::events::BatchTempo;
use crate::events::CastEventDelta;
use crate::events::Event;
use crate::events::MIDIDelta;
use crate::events::MIDIEvent;
use crate::events::MIDIEventEnum;
use crate::events::SerializeEvent;
use crate::events::SerializeEventWithDelta;
use crate::events::events::append_bytes;
use crate::io::errors::MIDIWriteError;
use crate::num::MIDINumInto;

verus! {

/// An event together with the time that passed since the event before it.
#[derive(Debug, Clone, PartialEq, Eq)]
pub struct Delta<D, E> {
    pub delta: D,
    pub event: E,
}

impl<D, E> Delta<D, E> {
    pub fn new(delta: D, event: E) -> (r: Self)
        ensures
            r.delta == delta,
            r.event == event,
    {
        Self { delta, event }
    }
}

impl<D: Copy, E> MIDIDelta<D> for Delta<D, E> {
    open spec fn spec_delta(&self) -> D {
        self.delta
    }

    fn delta(&self) -> (r: D) {
        self.delta
    }

    fn set_delta(&mut self, delta: D)
        ensures
            final(self).event == old(self).event,
    {
        self.delta = delta;
    }
}

impl<D: MIDINumInto<ND>, ND, E> CastEventDelta<ND> for Delta<D, E> {
    type Output = Delta<ND, E>;

    open spec fn spec_cast_delta(self) -> Delta<ND, E> {
        Delta { delta: self.delta.spec_midi_num_into(), event: self.event }
    }

    fn cast_delta(self) -> (r: Delta<ND, E>) {
        Delta { delta: self.delta.midi_num_into(), event: self.event }
    }
}

impl<D, E: SerializeEvent> SerializeEvent for Delta<D, E> {
    open spec fn serializable(&self) -> bool {
        self.event.serializable()
    }

    open spec fn wire_bytes(&self) -> Seq<u8> {
        self.event.wire_bytes()
    }

    fn serialize_event(&self, buf: &mut Vec<u8>) -> (r: Result<usize, MIDIWriteError>) {
        self.event.serialize_event(buf)
    }
}

impl<E: SerializeEvent> SerializeEventWithDelta for Delta<u64, E> {
    open spec fn delta_bytes(&self) -> Seq<u8> {
        spec_encode_var_length_value(self.delta as nat)
    }

    fn serialize_delta(&self, buf: &mut Vec<u8>) -> (r: Result<usize, MIDIWriteError>) {
        let vec = encode_var_length_value(self.delta);
        append_bytes(buf, &vec);
        Ok(vec.len())
    }

    fn serialize_event_with_delta(&self, buf: &mut Vec<u8>) -> (r: Result<usize, MIDIWriteError>) {
        let start: usize = buf.len();
        let vec = encode_var_length_value(self.delta);
        append_bytes(buf, &vec);
        let ghost mid = buf@;
        match self.event.serialize_event(buf) {
            Ok(_) => {
                assert(buf@ =~= old(buf)@ + self.delta_bytes() + self.wire_bytes());
                Ok(buf.len() - start)
            },
            Err(e) => {
                buf.truncate(start);
                assert(buf@ =~= old(buf)@);
                Err(e)
            },
        }
    }
}

impl<D, E: MIDIEvent> MIDIEvent for Delta<D, E> {
    open spec fn spec_key(&self) -> Option<u8> {
        self.event.spec_key()
    }

    open spec fn spec_channel(&self) -> Option<u8> {
        self.event.spec_channel()
    }

    open spec fn spec_as_u32(&self) -> Option<u32> {
        self.event.spec_as_u32()
    }

    fn key(&self) -> (r: Option<u8>) {
        self.event.key()
    }

    fn channel(&self) -> (r: Option<u8>) {
        self.event.channel()
    }

    fn as_u32(&self) -> (r: Option<u32>) {
        self.event.as_u32()
    }
}

impl<D, E: MIDIEventEnum> MIDIEventEnum for Delta<D, E> {
    open spec fn spec_event(&self) -> Event {
        self.event.spec_event()
    }

    fn as_event(&self) -> (r: &Event) {
        self.event.as_event()
    }
}

impl<D, E: BatchTempo> BatchTempo for Delta<D, E> {
    open spec fn spec_inner_tempo(&self) -> Option<u32> {
        self.event.spec_inner_tempo()
    }

    fn inner_tempo(&self) -> (r: Option<u32>) {
        self.event.inner_tempo()
    }

    fn without_tempo(self) -> (r: Option<Self>) {
        let Delta { delta, event } = self;
        match event.without_tempo() {
            Some(event) => Some(Delta { delta, event }),
            None => None,
        }
    }
}

} // verus!
