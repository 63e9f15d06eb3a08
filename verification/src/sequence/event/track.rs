use vstd::prelude::*;
use crate::events::BatchTempo;
use crate::events::Event;
use crate::events::MIDIEvent;
use crate::events::MIDIEventEnum;
use crate::events::SerializeEvent;
use crate::io::errors::MIDIWriteError;
use crate::sequence::common::join_stream;
use crate::sequence::common::spec_first_error;
use crate::sequence::common::spec_ok_prefix;
use crate::sequence::common::spec_stream;
use crate::sequence::common::split_stream;
use crate::sequence::event::delta::Delta;

verus! {

/// An event together with the number of the track it came from.
#[derive(Debug, Clone, PartialEq, Eq)]
pub struct Track<T> {
    pub event: T,
    pub track: u32,
}

impl<T> Track<T> {
    pub fn new(event: T, track: u32) -> (r: Self)
        ensures
            r.event == event,
            r.track == track,
    {
        Self { event, track }
    }

    pub fn inner_event(self) -> (e: T)
        ensures
            e == self.event,
    {
        self.event
    }

    pub fn track(&self) -> (t: u32)
        ensures
            t == self.track,
    {
        self.track
    }
}

impl<T: SerializeEvent> SerializeEvent for Track<T> {
    open spec fn serializable(&self) -> bool {
        self.event.serializable()
    }

    open spec fn wire_bytes(&self) -> Seq<u8> {
        self.event.wire_bytes()
    }

    fn serialize_event(&self, buf: &mut Vec<u8>) -> (r: Result<usize, MIDIWriteError>) {
        self.event.serialize_event(buf)
    }
}

impl<E: MIDIEvent> MIDIEvent for Track<E> {
    open spec fn spec_key(&self) -> Option<u8> {
        self.event.spec_key()
    }

    open spec fn spec_channel(&self) -> Option<u8> {
        self.event.spec_channel()
    }

    open spec fn spec_as_u32(&self) -> Option<u32> {
        self.event.spec_as_u32()
    }

    fn key(&self) -> (r: Option<u8>) {
        self.event.key()
    }

    fn channel(&self) -> (r: Option<u8>) {
        self.event.channel()
    }

    fn as_u32(&self) -> (r: Option<u32>) {
        self.event.as_u32()
    }
}

impl<E: MIDIEventEnum> MIDIEventEnum for Track<E> {
    open spec fn spec_event(&self) -> Event {
        self.event.spec_event()
    }

    fn as_event(&self) -> (r: &Event) {
        self.event.as_event()
    }
}

impl<E: BatchTempo> BatchTempo for Track<E> {
    open spec fn spec_inner_tempo(&self) -> Option<u32> {
        self.event.spec_inner_tempo()
    }

    fn inner_tempo(&self) -> (r: Option<u32>) {
        self.event.inner_tempo()
    }

    fn without_tempo(self) -> (r: Option<Self>) {
        let Track { event, track } = self;
        match event.without_tempo() {
            Some(event) => Some(Track { event, track }),
            None => None,
        }
    }
}

/// The items of `s`, each marked with `track`.
pub open spec fn spec_track_events<D, E>(s: Seq<Delta<D, E>>, track: u32) -> Seq<
    Delta<D, Track<E>>,
> {
    Seq::new(
        s.len(),
        |i: int| Delta { delta: s[i].delta, event: Track { event: s[i].event, track } },
    )
}

/// Marks every item before the first failure with `track`; the failure
/// passes through.
pub fn into_track_events<D, E, X>(iter: Vec<Result<Delta<D, E>, X>>, track: u32) -> (r: Vec<
    Result<Delta<D, Track<E>>, X>,
>)
    ensures
        r@ == spec_stream(
            spec_track_events(spec_ok_prefix(iter@), track),
            spec_first_error(iter@),
        ),
{
    let (items, error) = split_stream(iter);
    let ghost s = items@;
    let mut out: Vec<Delta<D, Track<E>>> = Vec::new();
    for e in it: items
        invariant
            it.seq() == s,
            out@ == spec_track_events(s, track).take(it.index() as int),
    {
        let Delta { delta, event } = e;
        out.push(Delta { delta, event: Track { event, track } });
        assert(out@ =~= spec_track_events(s, track).take(it.index() + 1));
    }
    assert(spec_track_events(s, track).take(s.len() as int) =~= spec_track_events(s, track));
    join_stream(out, error)
}

} // verus!
