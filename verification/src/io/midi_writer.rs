use vstd::prelude::*;
use crate::events::SerializeEventWithDelta;
use crate::events::events::append_bytes;
use crate::io::errors::MIDIWriteError;

verus! {

/// The two bytes of `val`, most significant first.
pub open spec fn spec_encode_u16(val: u16) -> Seq<u8> {
    seq![((val >> 8) & 0xff) as u8, (val & 0xff) as u8]
}

/// The four bytes of `val`, most significant first.
pub open spec fn spec_encode_u32(val: u32) -> Seq<u8> {
    seq![
        ((val >> 24) & 0xff) as u8,
        ((val >> 16) & 0xff) as u8,
        ((val >> 8) & 0xff) as u8,
        (val & 0xff) as u8,
    ]
}

pub fn encode_u16(val: u16) -> (bytes: [u8; 2])
    ensures
        bytes@ == spec_encode_u16(val),
{
    let bytes: [u8; 2] = [((val >> 8) & 0xff) as u8, (val & 0xff) as u8];
    assert(bytes@ =~= spec_encode_u16(val));
    bytes
}

pub fn encode_u32(val: u32) -> (bytes: [u8; 4])
    ensures
        bytes@ == spec_encode_u32(val),
{
    let bytes: [u8; 4] = [
        ((val >> 24) & 0xff) as u8,
        ((val >> 16) & 0xff) as u8,
        ((val >> 8) & 0xff) as u8,
        (val & 0xff) as u8,
    ];
    assert(bytes@ =~= spec_encode_u32(val));
    bytes
}

/// The bytes that close every track: the end-of-track event at delta zero.
pub open spec fn spec_track_end() -> Seq<u8> {
    seq![0x00u8, 0xFFu8, 0x2Fu8, 0x00u8]
}

/// The header chunk of a file.
pub open spec fn spec_header_chunk(format: u16, ntrks: u16, ppq: u16) -> Seq<u8> {
    seq![0x4Du8, 0x54u8, 0x68u8, 0x64u8] + spec_encode_u32(6) + spec_encode_u16(format)
        + spec_encode_u16(ntrks) + spec_encode_u16(ppq)
}

/// The chunk of a track with body `payload`.
pub open spec fn spec_track_chunk(payload: Seq<u8>) -> Seq<u8> {
    seq![0x4Du8, 0x54u8, 0x72u8, 0x6Bu8] + spec_encode_u32(payload.len() as u32) + payload
}

/// The chunks of the first `n` tracks of `payloads`, in the order of their
/// ids.
pub open spec fn spec_track_chunks(payloads: Seq<Seq<u8>>, n: int) -> Seq<u8>
    decreases n,
{
    if n <= 0 {
        Seq::empty()
    } else {
        spec_track_chunks(payloads, n - 1) + spec_track_chunk(payloads[n - 1])
    }
}

/// The track count as the header holds it.
pub open spec fn spec_track_count_word(n: int) -> u16 {
    if n > 0xFFFF {
        0xFFFFu16
    } else {
        n as u16
    }
}

/// What has become of a track id.
pub enum TrackSlot {
    /// The id has not been given out.
    Unopened,
    /// A track writer holds the id.
    Open,
    /// The track has ended and waits for the tracks before it.
    Queued(QueuedOutput),
    /// The track stands in the output.
    Written,
}

/// The body of a track that has ended, with its length.
pub struct QueuedOutput {
    pub write: Vec<u8>,
    pub length: u32,
}

/// A writer of a file of tracks. Tracks may end in any order; each stands
/// in the output at the place of its id.
pub struct MIDIWriter {
    output: Vec<u8>,
    ended: bool,
    format: u16,
    ppq: u16,
    slots: Vec<TrackSlot>,
    next_init_track: i32,
    next_write_track: usize,
    written: Ghost<Seq<Seq<u8>>>,
}

/// A writer of the body of one track.
pub struct TrackWriter {
    track_id: i32,
    writer: Option<Vec<u8>>,
}

impl MIDIWriter {
    /// The bytes written so far.
    pub closed spec fn spec_output(&self) -> Seq<u8> {
        self.output@
    }

    pub closed spec fn spec_ended(&self) -> bool {
        self.ended
    }

    pub closed spec fn spec_format(&self) -> u16 {
        self.format
    }

    pub closed spec fn spec_ppq(&self) -> u16 {
        self.ppq
    }

    /// The number of tracks that stand in the output.
    pub closed spec fn spec_flushed(&self) -> int {
        self.next_write_track as int
    }

    /// The id that [`Self::open_next_track`] gives out next.
    pub closed spec fn spec_next_id(&self) -> i32 {
        self.next_init_track
    }

    /// Whether a track writer holds `id`.
    pub closed spec fn spec_is_open(&self, id: int) -> bool {
        0 <= id < self.slots@.len() && self.slots@[id] is Open
    }

    /// Whether `id` has not been given out.
    pub closed spec fn spec_is_free(&self, id: int) -> bool {
        id >= self.slots@.len() || (0 <= id && self.slots@[id] is Unopened)
    }

    /// The body of the track `id`, once it has ended.
    pub closed spec fn spec_payload(&self, id: int) -> Option<Seq<u8>> {
        if 0 <= id < self.next_write_track {
            Some(self.written@[id])
        } else if 0 <= id < self.slots@.len() {
            match self.slots@[id] {
                TrackSlot::Queued(q) => Some(q.write@),
                _ => None,
            }
        } else {
            None
        }
    }

    /// The number of ids seen so far: one more than the largest that was
    /// given out.
    pub closed spec fn spec_id_count(&self) -> int {
        self.slots@.len() as int
    }

    /// The bodies of the tracks in the output, in the order of their ids.
    pub closed spec fn spec_written(&self) -> Seq<Seq<u8>> {
        self.written@
    }

    /// The tracks that stand in the output are those with the lowest ids,
    /// the track after them has not ended, and the output is the header
    /// chunk and then their chunks.
    pub closed spec fn wf(&self) -> bool {
        &&& self.next_write_track <= self.slots@.len()
        &&& self.slots@.len() <= i32::MAX
        &&& self.written@.len() == self.next_write_track
        &&& forall|i: int| 0 <= i < self.next_write_track ==> (#[trigger] self.slots@[i]) is Written
        &&& forall|i: int|
            self.next_write_track <= i < self.slots@.len() ==> !((#[trigger] self.slots@[i])
                is Written)
        &&& forall|i: int|
            0 <= i < self.slots@.len() ==> ((#[trigger] self.slots@[i]) matches TrackSlot::Queued(
                q,
            ) ==> q.length == q.write@.len())
        &&& forall|i: int|
            0 <= i < self.written@.len() ==> (#[trigger] self.written@[i]).len() <= u32::MAX
        &&& self.next_write_track < self.slots@.len() ==> !(self.slots@[self.next_write_track as int]
            is Queued)
        &&& self.output@ == spec_header_chunk(
            self.format,
            if self.ended {
                spec_track_count_word(self.next_write_track as int)
            } else {
                0
            },
            self.ppq,
        ) + spec_track_chunks(self.written@, self.next_write_track as int)
    }

    /// Whether every id below [`Self::spec_id_count`] was given out and
    /// every track has ended, so that all tracks stand in the output.
    pub open spec fn spec_complete(&self) -> bool {
        self.spec_flushed() == self.spec_id_count()
    }

    /// The output of a writer is its header chunk and the chunks of the
    /// tracks that stand in the output, in the order of their ids. Those
    /// are the tracks with the lowest ids that have all ended: the track
    /// after them has not.
    pub proof fn lemma_output(&self)
        requires
            self.wf(),
        ensures
            0 <= self.spec_flushed() <= self.spec_id_count(),
            self.spec_written().len() == self.spec_flushed(),
            forall|i: int|
                0 <= i < self.spec_flushed() ==> self.spec_payload(i) == Some(
                    #[trigger] self.spec_written()[i],
                ),
            self.spec_payload(self.spec_flushed()) is None,
            self.spec_output() == spec_header_chunk(
                self.spec_format(),
                if self.spec_ended() {
                    spec_track_count_word(self.spec_flushed())
                } else {
                    0
                },
                self.spec_ppq(),
            ) + spec_track_chunks(self.spec_written(), self.spec_flushed()),
    {
    }

    /// Once every track has ended, whatever the order in which they ended,
    /// all tracks stand in the output, in the order of their ids: the
    /// output is the header chunk and then, for every id from zero on, the
    /// chunk of the body that was handed in for that id.
    pub proof fn lemma_all_ended(&self)
        requires
            self.wf(),
            forall|id: int| 0 <= id < self.spec_id_count() ==> self.spec_payload(id) is Some,
        ensures
            self.spec_flushed() == self.spec_id_count(),
            self.spec_complete(),
            self.spec_written() == Seq::new(
                self.spec_id_count() as nat,
                |id: int| self.spec_payload(id)->Some_0,
            ),
            self.spec_output() == spec_header_chunk(
                self.spec_format(),
                if self.spec_ended() {
                    spec_track_count_word(self.spec_id_count())
                } else {
                    0
                },
                self.spec_ppq(),
            ) + spec_track_chunks(
                Seq::new(self.spec_id_count() as nat, |id: int| self.spec_payload(id)->Some_0),
                self.spec_id_count(),
            ),
    {
        if self.next_write_track < self.slots@.len() {
            assert(self.spec_payload(self.next_write_track as int) is Some);
        }
        assert(self.written@ =~= Seq::new(
            self.spec_id_count() as nat,
            |id: int| self.spec_payload(id)->Some_0,
        ));
    }

    /// The order in which tracks end leaves no trace: two writers with the
    /// same header words, in which the same number of tracks stand in the
    /// output and every such track has the same body, hold the same bytes.
    pub proof fn lemma_order_leaves_no_trace(&self, other: &MIDIWriter)
        requires
            self.wf(),
            other.wf(),
            self.spec_format() == other.spec_format(),
            self.spec_ppq() == other.spec_ppq(),
            self.spec_ended() == other.spec_ended(),
            self.spec_flushed() == other.spec_flushed(),
            forall|id: int|
                0 <= id < self.spec_flushed() ==> self.spec_payload(id) == other.spec_payload(id),
        ensures
            self.spec_output() == other.spec_output(),
    {
        assert forall|i: int| 0 <= i < self.written@.len() implies self.written@[i]
            == other.written@[i] by {
            assert(self.spec_payload(i) == Some(self.written@[i]));
            assert(other.spec_payload(i) == Some(other.written@[i]));
        }
        assert(self.written@ =~= other.written@);
    }

    /// A writer with the header chunk written: format one, no tracks yet.
    pub fn new_in_memory(ppq: u16) -> (w: MIDIWriter)
        ensures
            w.wf(),
            !w.spec_ended(),
            w.spec_format() == 1,
            w.spec_ppq() == ppq,
            w.spec_flushed() == 0,
            w.spec_id_count() == 0,
            w.spec_next_id() == 0,
            w.spec_output() == spec_header_chunk(1, 0, ppq),
            forall|id: int| id >= 0 ==> w.spec_is_free(id),
            forall|id: int| !w.spec_is_open(id),
            forall|id: int| w.spec_payload(id) is None,
    {
        let mut output: Vec<u8> = Vec::new();
        output.push(0x4D);
        output.push(0x54);
        output.push(0x68);
        output.push(0x64);
        push_u32(&mut output, 6);
        push_u16(&mut output, 1);
        push_u16(&mut output, 0);
        push_u16(&mut output, ppq);
        assert(output@ =~= spec_header_chunk(1, 0, ppq));
        assert(output@ =~= spec_header_chunk(1, 0, ppq) + spec_track_chunks(Seq::empty(), 0));
        MIDIWriter {
            output,
            ended: false,
            format: 1,
            ppq,
            slots: Vec::new(),
            next_init_track: 0,
            next_write_track: 0,
            written: Ghost(Seq::empty()),
        }
    }

    /// The bytes written so far.
    pub fn output(&self) -> (r: &Vec<u8>)
        ensures
            r@ == self.spec_output(),
    {
        &self.output
    }

    /// Writes two bytes over the header at `at`.
    fn write_u16_at(&mut self, at: usize, val: u16)
        requires
            at + 2 <= old(self).output@.len(),
        ensures
            final(self).output@ == old(self).output@.update(
                at as int,
                spec_encode_u16(val)[0],
            ).update(at + 1, spec_encode_u16(val)[1]),
            final(self).ended == old(self).ended,
            final(self).format == old(self).format,
            final(self).ppq == old(self).ppq,
            final(self).slots == old(self).slots,
            final(self).next_init_track == old(self).next_init_track,
            final(self).next_write_track == old(self).next_write_track,
            final(self).written == old(self).written,
    {
        let bytes = encode_u16(val);
        let n: usize = self.output.len();
        assert(at + 2 <= n);
        self.output[at] = bytes[0];
        self.output[at + 1] = bytes[1];
    }

    /// Sets the division word of the header.
    pub fn write_ppq(&mut self, ppq: u16) -> (r: Result<(), MIDIWriteError>)
        requires
            old(self).wf(),
        ensures
            r is Ok,
            final(self).wf(),
            final(self).spec_ppq() == ppq,
            final(self).spec_format() == old(self).spec_format(),
            final(self).spec_ended() == old(self).spec_ended(),
            final(self).spec_flushed() == old(self).spec_flushed(),
            final(self).spec_written() == old(self).spec_written(),
            final(self).spec_id_count() == old(self).spec_id_count(),
            final(self).spec_next_id() == old(self).spec_next_id(),
            forall|id: int| final(self).spec_payload(id) == old(self).spec_payload(id),
            forall|id: int| final(self).spec_is_open(id) == old(self).spec_is_open(id),
            forall|id: int| final(self).spec_is_free(id) == old(self).spec_is_free(id),
    {
        let ghost ntrks = if self.ended {
            spec_track_count_word(self.next_write_track as int)
        } else {
            0
        };
        self.write_u16_at(12, ppq);
        self.ppq = ppq;
        assert(self.output@ =~= spec_header_chunk(self.format, ntrks, ppq) + spec_track_chunks(
            self.written@,
            self.next_write_track as int,
        ));
        Ok(())
    }

    /// Sets the format word of the header.
    pub fn write_format(&mut self, format: u16) -> (r: Result<(), MIDIWriteError>)
        requires
            old(self).wf(),
        ensures
            r is Ok,
            final(self).wf(),
            final(self).spec_format() == format,
            final(self).spec_ppq() == old(self).spec_ppq(),
            final(self).spec_ended() == old(self).spec_ended(),
            final(self).spec_flushed() == old(self).spec_flushed(),
            final(self).spec_written() == old(self).spec_written(),
            final(self).spec_id_count() == old(self).spec_id_count(),
            final(self).spec_next_id() == old(self).spec_next_id(),
            forall|id: int| final(self).spec_payload(id) == old(self).spec_payload(id),
            forall|id: int| final(self).spec_is_open(id) == old(self).spec_is_open(id),
            forall|id: int| final(self).spec_is_free(id) == old(self).spec_is_free(id),
    {
        let ghost ntrks = if self.ended {
            spec_track_count_word(self.next_write_track as int)
        } else {
            0
        };
        self.write_u16_at(8, format);
        self.format = format;
        assert(self.output@ =~= spec_header_chunk(format, ntrks, self.ppq) + spec_track_chunks(
            self.written@,
            self.next_write_track as int,
        ));
        Ok(())
    }

    /// Gives out `track_id` to a new track writer. The id must be free.
    pub fn open_track(&mut self, track_id: i32) -> (t: TrackWriter)
        requires
            old(self).wf(),
            !old(self).spec_ended(),
            0 <= track_id < i32::MAX,
            old(self).spec_is_free(track_id as int),
        ensures
            final(self).wf(),
            t.spec_track_id() == track_id,
            t.spec_buffer() == Some(Seq::<u8>::empty()),
            final(self).spec_is_open(track_id as int),
            final(self).spec_output() == old(self).spec_output(),
            final(self).spec_format() == old(self).spec_format(),
            final(self).spec_ppq() == old(self).spec_ppq(),
            !final(self).spec_ended(),
            final(self).spec_flushed() == old(self).spec_flushed(),
            final(self).spec_written() == old(self).spec_written(),
            final(self).spec_next_id() == old(self).spec_next_id(),
            final(self).spec_id_count() == (if track_id >= old(self).spec_id_count() {
                track_id + 1
            } else {
                old(self).spec_id_count()
            }),
            forall|id: int| final(self).spec_payload(id) == old(self).spec_payload(id),
            forall|id: int|
                id != track_id ==> final(self).spec_is_open(id) == old(self).spec_is_open(id),
            forall|id: int|
                id != track_id ==> final(self).spec_is_free(id) == old(self).spec_is_free(id),
    {
        self.add_opened_track(track_id);
        TrackWriter { track_id, writer: Some(Vec::new()) }
    }

    /// Gives out the next id to a new track writer. That id must be free.
    pub fn open_next_track(&mut self) -> (t: TrackWriter)
        requires
            old(self).wf(),
            !old(self).spec_ended(),
            0 <= old(self).spec_next_id() < i32::MAX,
            old(self).spec_is_free(old(self).spec_next_id() as int),
        ensures
            final(self).wf(),
            t.spec_track_id() == old(self).spec_next_id(),
            t.spec_buffer() == Some(Seq::<u8>::empty()),
            final(self).spec_is_open(t.spec_track_id() as int),
            final(self).spec_next_id() == old(self).spec_next_id() + 1,
            final(self).spec_output() == old(self).spec_output(),
            final(self).spec_format() == old(self).spec_format(),
            final(self).spec_ppq() == old(self).spec_ppq(),
            !final(self).spec_ended(),
            final(self).spec_flushed() == old(self).spec_flushed(),
            final(self).spec_written() == old(self).spec_written(),
            forall|id: int| final(self).spec_payload(id) == old(self).spec_payload(id),
            forall|id: int|
                id != t.spec_track_id() ==> final(self).spec_is_open(id) == old(self).spec_is_open(id),
            forall|id: int|
                id != t.spec_track_id() ==> final(self).spec_is_free(id) == old(self).spec_is_free(id),
    {
        let track_id: i32 = self.next_init_track;
        self.next_init_track = track_id + 1;
        self.add_opened_track(track_id);
        TrackWriter { track_id, writer: Some(Vec::new()) }
    }

    /// Marks `track_id` as held by a track writer.
    fn add_opened_track(&mut self, track_id: i32)
        requires
            old(self).wf(),
            0 <= track_id < i32::MAX,
            old(self).spec_is_free(track_id as int),
        ensures
            final(self).wf(),
            final(self).spec_is_open(track_id as int),
            final(self).output == old(self).output,
            final(self).ended == old(self).ended,
            final(self).format == old(self).format,
            final(self).ppq == old(self).ppq,
            final(self).next_init_track == old(self).next_init_track,
            final(self).next_write_track == old(self).next_write_track,
            final(self).written == old(self).written,
            final(self).slots@.len() == (if track_id >= old(self).slots@.len() {
                track_id + 1
            } else {
                old(self).slots@.len() as int
            }),
            forall|id: int| final(self).spec_payload(id) == old(self).spec_payload(id),
            forall|id: int|
                id != track_id ==> final(self).spec_is_open(id) == old(self).spec_is_open(id),
            forall|id: int|
                id != track_id ==> final(self).spec_is_free(id) == old(self).spec_is_free(id),
    {
        let at: usize = track_id as usize;
        while self.slots.len() <= at
            invariant
                self.wf(),
                at == track_id,
                at < i32::MAX,
                self.output == old(self).output,
                self.ended == old(self).ended,
                self.format == old(self).format,
                self.ppq == old(self).ppq,
                self.next_init_track == old(self).next_init_track,
                self.next_write_track == old(self).next_write_track,
                self.written == old(self).written,
                old(self).slots@.len() <= self.slots@.len(),
                self.slots@.len() <= at + 1 || self.slots@.len() == old(self).slots@.len(),
                self.slots@.len() > old(self).slots@.len() ==> at >= old(self).slots@.len(),
                forall|i: int| 0 <= i < old(self).slots@.len() ==> self.slots@[i] == old(self).slots@[i],
                forall|i: int|
                    old(self).slots@.len() <= i < self.slots@.len() ==> self.slots@[i] is Unopened,
            decreases at + 1 - self.slots@.len(),
        {
            self.slots.push(TrackSlot::Unopened);
        }
        let ghost grown = *self;
        self.slots[at] = TrackSlot::Open;
        proof {
            assert forall|id: int| self.spec_payload(id) == old(self).spec_payload(id) by {
                if 0 <= id < self.slots@.len() && id != at {
                    assert(self.slots@[id] == grown.slots@[id]);
                }
            }
            assert forall|id: int| id != track_id implies self.spec_is_open(id) == old(self).spec_is_open(id) by {
                if 0 <= id < self.slots@.len() {
                    assert(self.slots@[id] == grown.slots@[id]);
                }
            }
            assert forall|id: int| id != track_id implies self.spec_is_free(id) == old(self).spec_is_free(id) by {
                if 0 <= id < self.slots@.len() {
                    assert(self.slots@[id] == grown.slots@[id]);
                }
            }
        }
    }

    /// Closes the file: sets the track count of the header. Every id up to
    /// the largest that was given out must have been given out, and every
    /// track must have ended.
    pub fn end(&mut self) -> (r: Result<(), MIDIWriteError>)
        requires
            old(self).wf(),
            !old(self).spec_ended(),
            old(self).spec_complete(),
        ensures
            r is Ok,
            final(self).wf(),
            final(self).spec_ended(),
            final(self).spec_written() == old(self).spec_written(),
            final(self).spec_flushed() == old(self).spec_flushed(),
            final(self).spec_output() == spec_header_chunk(
                old(self).spec_format(),
                spec_track_count_word(old(self).spec_flushed()),
                old(self).spec_ppq(),
            ) + spec_track_chunks(old(self).spec_written(), old(self).spec_flushed()),
    {
        let track_count: usize = self.next_write_track;
        let word: u16 = if track_count > 0xFFFF {
            0xFFFF
        } else {
            track_count as u16
        };
        self.write_u16_at(10, word);
        self.ended = true;
        assert(self.output@ =~= spec_header_chunk(self.format, word, self.ppq)
            + spec_track_chunks(self.written@, self.next_write_track as int));
        Ok(())
    }

    /// Whether the file is still open: `true` until [`Self::end`] is
    /// called.
    pub fn is_ended(&self) -> (b: bool)
        ensures
            b == !self.spec_ended(),
    {
        !self.ended
    }

    /// Puts the tracks that have ended and wait at the front of the line
    /// into the output.
    fn flush_queued(&mut self)
        requires
            old(self).next_write_track <= old(self).slots@.len(),
            old(self).slots@.len() <= i32::MAX,
            old(self).written@.len() == old(self).next_write_track,
            forall|i: int|
                0 <= i < old(self).next_write_track ==> (#[trigger] old(self).slots@[i]) is Written,
            forall|i: int|
                old(self).next_write_track <= i < old(self).slots@.len() ==> !((
                #[trigger] old(self).slots@[i]) is Written),
            forall|i: int|
                0 <= i < old(self).slots@.len() ==> ((
                #[trigger] old(self).slots@[i]) matches TrackSlot::Queued(q) ==> q.length
                    == q.write@.len()),
            forall|i: int|
                0 <= i < old(self).written@.len() ==> (#[trigger] old(self).written@[i]).len()
                    <= u32::MAX,
            !old(self).ended,
            old(self).output@ == spec_header_chunk(old(self).format, 0, old(self).ppq)
                + spec_track_chunks(old(self).written@, old(self).next_write_track as int),
        ensures
            final(self).wf(),
            !final(self).ended,
            final(self).format == old(self).format,
            final(self).ppq == old(self).ppq,
            final(self).next_init_track == old(self).next_init_track,
            final(self).slots@.len() == old(self).slots@.len(),
            final(self).next_write_track >= old(self).next_write_track,
            forall|id: int| final(self).spec_payload(id) == old(self).spec_payload_raw(id),
            forall|id: int| final(self).spec_is_open(id) == old(self).spec_is_open(id),
            forall|id: int| final(self).spec_is_free(id) == old(self).spec_is_free(id),
    {
        loop
            invariant
                self.next_write_track <= self.slots@.len(),
                self.slots@.len() == old(self).slots@.len(),
                self.slots@.len() <= i32::MAX,
                self.written@.len() == self.next_write_track,
                self.next_write_track >= old(self).next_write_track,
                forall|i: int|
                    0 <= i < self.next_write_track ==> (#[trigger] self.slots@[i]) is Written,
                forall|i: int|
                    self.next_write_track <= i < self.slots@.len() ==> !((#[trigger] self.slots@[i])
                        is Written),
                forall|i: int|
                    0 <= i < self.slots@.len() ==> ((
                    #[trigger] self.slots@[i]) matches TrackSlot::Queued(q) ==> q.length
                        == q.write@.len()),
                forall|i: int|
                    0 <= i < self.written@.len() ==> (#[trigger] self.written@[i]).len()
                        <= u32::MAX,
                !self.ended,
                self.format == old(self).format,
                self.ppq == old(self).ppq,
                self.next_init_track == old(self).next_init_track,
                self.output@ == spec_header_chunk(self.format, 0, self.ppq) + spec_track_chunks(
                    self.written@,
                    self.next_write_track as int,
                ),
                forall|id: int| self.spec_payload_raw(id) == old(self).spec_payload_raw(id),
                forall|id: int| self.spec_is_open(id) == old(self).spec_is_open(id),
                forall|id: int| self.spec_is_free(id) == old(self).spec_is_free(id),
            decreases self.slots@.len() - self.next_write_track,
        {
            let at: usize = self.next_write_track;
            if at >= self.slots.len() {
                return ;
            }
            let queued: bool = match &self.slots[at] {
                TrackSlot::Queued(_) => true,
                _ => false,
            };
            if !queued {
                return ;
            }
            let ghost before = *self;
            self.slots.push(TrackSlot::Written);
            let slot = self.slots.swap_remove(at);
            assert(self.slots@ =~= before.slots@.update(at as int, TrackSlot::Written));
            match slot {
                TrackSlot::Queued(output) => {
                    let ghost start = self.output@;
                    self.output.push(0x4D);
                    self.output.push(0x54);
                    self.output.push(0x72);
                    self.output.push(0x6B);
                    push_u32(&mut self.output, output.length);
                    append_bytes(&mut self.output, &output.write);
                    proof {
                        self.written = Ghost(self.written@.push(output.write@));
                        assert(self.output@ =~= start + spec_track_chunk(output.write@));
                        lemma_chunks_of_prefix(before.written@, output.write@, at as int);
                        assert(spec_track_chunks(self.written@, at + 1) == spec_track_chunks(
                            before.written@,
                            at as int,
                        ) + spec_track_chunk(output.write@));
                        assert(self.output@ =~= spec_header_chunk(self.format, 0, self.ppq)
                            + spec_track_chunks(self.written@, at + 1));
                    }
                    self.next_write_track = at + 1;
                    proof {
                        assert(before.slots@[at as int] == TrackSlot::Queued(output));
                        assert forall|id: int| self.spec_payload_raw(id) == before.spec_payload_raw(
                            id,
                        ) by {
                            if 0 <= id < at {
                                assert(self.written@[id] == before.written@[id]);
                            } else if id == at {
                                assert(self.written@[id] == output.write@);
                            } else if at < id < self.slots@.len() {
                                assert(self.slots@[id] == before.slots@[id]);
                            }
                        }
                        assert forall|id: int| self.spec_is_open(id) == before.spec_is_open(
                            id,
                        ) by {
                            if 0 <= id < self.slots@.len() && id != at {
                                assert(self.slots@[id] == before.slots@[id]);
                            }
                        }
                        assert forall|id: int| self.spec_is_free(id) == before.spec_is_free(
                            id,
                        ) by {
                            if 0 <= id < self.slots@.len() && id != at {
                                assert(self.slots@[id] == before.slots@[id]);
                            }
                        }
                    }
                },
                _ => {},
            }
        }
    }

    /// The body of the track `id`, once it has ended, whether or not the
    /// writer is well formed.
    pub closed spec fn spec_payload_raw(&self, id: int) -> Option<Seq<u8>> {
        self.spec_payload(id)
    }
}

pub proof fn lemma_chunks_of_prefix(written: Seq<Seq<u8>>, payload: Seq<u8>, n: int)
    requires
        0 <= n <= written.len(),
    ensures
        spec_track_chunks(written.push(payload), n) == spec_track_chunks(written, n),
    decreases n,
{
    if n > 0 {
        lemma_chunks_of_prefix(written, payload, n - 1);
    }
}

/// Appends the two bytes of `val`.
fn push_u16(buf: &mut Vec<u8>, val: u16)
    ensures
        final(buf)@ == old(buf)@ + spec_encode_u16(val),
{
    let bytes = encode_u16(val);
    buf.push(bytes[0]);
    buf.push(bytes[1]);
    assert(buf@ =~= old(buf)@ + spec_encode_u16(val));
}

/// Appends the four bytes of `val`.
fn push_u32(buf: &mut Vec<u8>, val: u32)
    ensures
        final(buf)@ == old(buf)@ + spec_encode_u32(val),
{
    let bytes = encode_u32(val);
    buf.push(bytes[0]);
    buf.push(bytes[1]);
    buf.push(bytes[2]);
    buf.push(bytes[3]);
    assert(buf@ =~= old(buf)@ + spec_encode_u32(val));
}

impl TrackWriter {
    pub closed spec fn spec_track_id(&self) -> i32 {
        self.track_id
    }

    /// The bytes written to the track so far, until the track has ended.
    pub closed spec fn spec_buffer(&self) -> Option<Seq<u8>> {
        match self.writer {
            Some(v) => Some(v@),
            None => None,
        }
    }

    /// The id of the track.
    pub fn track_id(&self) -> (id: i32)
        ensures
            id == self.spec_track_id(),
    {
        self.track_id
    }

    /// The bytes written to the track so far, until the track has ended.
    pub fn buffer(&self) -> (r: Option<&Vec<u8>>)
        ensures
            match r {
                Some(v) => self.spec_buffer() == Some(v@),
                None => self.spec_buffer() is None,
            },
    {
        self.writer.as_ref()
    }

    /// Ends the track: closes its body with the end-of-track event and
    /// hands it to `midi_writer`, which puts it into the output as soon as
    /// every track with a lower id stands there. `midi_writer` must be the
    /// writer that gave out this track.
    pub fn end(&mut self, midi_writer: &mut MIDIWriter) -> (r: Result<(), MIDIWriteError>)
        requires
            old(self).spec_buffer() is Some,
            old(self).spec_buffer()->Some_0.len() + 4 <= u32::MAX,
            old(midi_writer).wf(),
            !old(midi_writer).spec_ended(),
            old(midi_writer).spec_is_open(old(self).spec_track_id() as int),
        ensures
            r is Ok,
            final(self).spec_buffer() is None,
            final(self).spec_track_id() == old(self).spec_track_id(),
            final(midi_writer).wf(),
            !final(midi_writer).spec_ended(),
            final(midi_writer).spec_format() == old(midi_writer).spec_format(),
            final(midi_writer).spec_ppq() == old(midi_writer).spec_ppq(),
            final(midi_writer).spec_next_id() == old(midi_writer).spec_next_id(),
            final(midi_writer).spec_id_count() == old(midi_writer).spec_id_count(),
            final(midi_writer).spec_flushed() >= old(midi_writer).spec_flushed(),
            final(midi_writer).spec_payload(old(self).spec_track_id() as int) == Some(
                old(self).spec_buffer()->Some_0 + spec_track_end(),
            ),
            forall|id: int|
                id != old(self).spec_track_id() ==> final(midi_writer).spec_payload(id) == old(midi_writer).spec_payload(id),
            !final(midi_writer).spec_is_open(old(self).spec_track_id() as int),
            forall|id: int|
                id != old(self).spec_track_id() ==> final(midi_writer).spec_is_open(id) == old(midi_writer).spec_is_open(id),
            forall|id: int|
                final(midi_writer).spec_is_free(id) == old(midi_writer).spec_is_free(id),
    {
        let mut writer = match self.writer.take() {
            Some(buffer) => buffer,
            None => Vec::new(),
        };
        writer.push(0x00);
        writer.push(0xFF);
        writer.push(0x2F);
        writer.push(0x00);
        assert(writer@ =~= old(self).spec_buffer()->Some_0 + spec_track_end());
        let length: u32 = writer.len() as u32;
        let at: usize = self.track_id as usize;
        let ghost before = *midi_writer;
        midi_writer.slots[at] = TrackSlot::Queued(QueuedOutput { write: writer, length });
        let ghost queued = *midi_writer;
        proof {
            assert forall|id: int| id != at implies queued.spec_payload_raw(id)
                == before.spec_payload(id) by {
                if 0 <= id < queued.slots@.len() {
                    assert(queued.slots@[id] == before.slots@[id]);
                }
            }
            assert forall|id: int| id != at implies queued.spec_is_open(id) == before.spec_is_open(
                id,
            ) by {
                if 0 <= id < queued.slots@.len() {
                    assert(queued.slots@[id] == before.slots@[id]);
                }
            }
            assert forall|id: int| queued.spec_is_free(id) == before.spec_is_free(id) by {
                if 0 <= id < queued.slots@.len() && id != at {
                    assert(queued.slots@[id] == before.slots@[id]);
                }
            }
            assert forall|i: int| 0 <= i < queued.slots@.len() implies ((
            #[trigger] queued.slots@[i]) matches TrackSlot::Queued(q) ==> q.length
                == q.write@.len()) by {
                if i != at {
                    assert(queued.slots@[i] == before.slots@[i]);
                }
            }
            assert forall|i: int| queued.next_write_track <= i < queued.slots@.len() implies !((
            #[trigger] queued.slots@[i]) is Written) by {
                if i != at {
                    assert(queued.slots@[i] == before.slots@[i]);
                }
            }
            assert forall|i: int| 0 <= i < queued.next_write_track implies (
            #[trigger] queued.slots@[i]) is Written by {
                assert(queued.slots@[i] == before.slots@[i]);
            }
        }
        midi_writer.flush_queued();
        Ok(())
    }

    /// Whether the track is still open: `true` until [`Self::end`] is
    /// called.
    pub fn is_ended(&self) -> (b: bool)
        ensures
            b == self.spec_buffer() is Some,
    {
        self.writer.is_some()
    }

    /// Appends the delta and the bytes of `event` to the track's body and
    /// returns the number of bytes written. The track must not have ended.
    pub fn write_event<T: SerializeEventWithDelta>(&mut self, event: T) -> (r: Result<
        usize,
        MIDIWriteError,
    >)
        requires
            old(self).spec_buffer() is Some,
        ensures
            final(self).spec_track_id() == old(self).spec_track_id(),
            event.serializable() ==> r is Ok && r->Ok_0 == event.delta_bytes().len()
                + event.wire_bytes().len() && final(self).spec_buffer() == Some(
                old(self).spec_buffer()->Some_0 + event.delta_bytes() + event.wire_bytes(),
            ),
            !event.serializable() ==> r == Err::<usize, MIDIWriteError>(
                MIDIWriteError::NotImplemented,
            ) && final(self).spec_buffer() == old(self).spec_buffer(),
    {
        let mut buffer = match self.writer.take() {
            Some(buffer) => buffer,
            None => Vec::new(),
        };
        let r = event.serialize_event_with_delta(&mut buffer);
        self.writer = Some(buffer);
        r
    }

    /// Appends `bytes` to the track's body and returns their number. The
    /// track must not have ended.
    pub fn write_bytes(&mut self, bytes: &Vec<u8>) -> (r: Result<usize, MIDIWriteError>)
        requires
            old(self).spec_buffer() is Some,
        ensures
            final(self).spec_track_id() == old(self).spec_track_id(),
            r == Ok::<usize, MIDIWriteError>(bytes@.len() as usize),
            final(self).spec_buffer() == Some(old(self).spec_buffer()->Some_0 + bytes@),
    {
        let mut buffer = match self.writer.take() {
            Some(buffer) => buffer,
            None => Vec::new(),
        };
        append_bytes(&mut buffer, bytes);
        self.writer = Some(buffer);
        Ok(bytes.len())
    }

    /// The bytes of the first `n` events of `events`, each with its delta.
    pub open spec fn spec_events_bytes<T: SerializeEventWithDelta>(events: Seq<T>, n: int) -> Seq<
        u8,
    >
        decreases n,
    {
        if n <= 0 {
            Seq::empty()
        } else {
            Self::spec_events_bytes(events, n - 1) + events[n - 1].delta_bytes() + events[n
                - 1].wire_bytes()
        }
    }

    /// The index of the first event of `events` that has no wire form, at
    /// or after `from`; the length of `events` if there is none.
    pub open spec fn spec_first_refused<T: SerializeEventWithDelta>(events: Seq<T>, from: int) -> int
        decreases events.len() - from,
    {
        if from < 0 || from >= events.len() || !events[from].serializable() {
            from
        } else {
            Self::spec_first_refused(events, from + 1)
        }
    }

    /// Appends the events of `events`, each with its delta, to the track's
    /// body and returns the number of bytes written. The first event that
    /// has no wire form ends the writing; the events before it stay
    /// written. The track must not have ended.
    pub fn write_events_iter<T: SerializeEventWithDelta>(&mut self, events: Vec<T>) -> (r: Result<
        usize,
        MIDIWriteError,
    >)
        requires
            old(self).spec_buffer() is Some,
        ensures
            final(self).spec_track_id() == old(self).spec_track_id(),
            final(self).spec_buffer() == Some(
                old(self).spec_buffer()->Some_0 + Self::spec_events_bytes(
                    events@,
                    Self::spec_first_refused(events@, 0),
                ),
            ),
            Self::spec_first_refused(events@, 0) >= events@.len() ==> r is Ok && r->Ok_0
                == Self::spec_events_bytes(events@, events@.len() as int).len(),
            Self::spec_first_refused(events@, 0) < events@.len() ==> r == Err::<
                usize,
                MIDIWriteError,
            >(MIDIWriteError::NotImplemented),
    {
        let ghost start = old(self).spec_buffer()->Some_0;
        let ghost s = events@;
        let mut i: usize = 0;
        let first: usize = match &self.writer {
            Some(buffer) => buffer.len(),
            None => 0,
        };
        assert(start + Self::spec_events_bytes(s, 0) =~= start);
        while i < events.len()
            invariant
                i <= events.len(),
                s == events@,
                first == start.len(),
                start == old(self).spec_buffer()->Some_0,
                self.spec_track_id() == old(self).spec_track_id(),
                self.spec_buffer() == Some(start + Self::spec_events_bytes(s, i as int)),
                Self::spec_first_refused(s, 0) == Self::spec_first_refused(s, i as int),
            decreases events.len() - i,
        {
            let ghost before = self.spec_buffer()->Some_0;
            match self.write_event_ref(&events[i]) {
                Ok(_) => {},
                Err(e) => {
                    assert(Self::spec_first_refused(s, i as int) == i);
                    return Err(e);
                },
            }
            i += 1;
            assert(self.spec_buffer()->Some_0 =~= start + Self::spec_events_bytes(s, i as int));
        }
        let last: usize = match &self.writer {
            Some(buffer) => buffer.len(),
            None => 0,
        };
        Ok(last - first)
    }

    /// As [`Self::write_event`], for an event that is not given away.
    pub fn write_event_ref<T: SerializeEventWithDelta>(&mut self, event: &T) -> (r: Result<
        usize,
        MIDIWriteError,
    >)
        requires
            old(self).spec_buffer() is Some,
        ensures
            final(self).spec_track_id() == old(self).spec_track_id(),
            event.serializable() ==> r is Ok && r->Ok_0 == event.delta_bytes().len()
                + event.wire_bytes().len() && final(self).spec_buffer() == Some(
                old(self).spec_buffer()->Some_0 + event.delta_bytes() + event.wire_bytes(),
            ),
            !event.serializable() ==> r == Err::<usize, MIDIWriteError>(
                MIDIWriteError::NotImplemented,
            ) && final(self).spec_buffer() == old(self).spec_buffer(),
    {
        let mut buffer = match self.writer.take() {
            Some(buffer) => buffer,
            None => Vec::new(),
        };
        let r = event.serialize_event_with_delta(&mut buffer);
        self.writer = Some(buffer);
        r
    }
}

} // verus!
