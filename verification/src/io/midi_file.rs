use vstd::prelude::*;
use crate::events::Event;
use crate::io::errors::MIDILoadError;
use crate::io::errors::MIDIParseError;
use crate::io::track_parser::spec_collected_from;
use crate::sequence::common::spec_first_error;
use crate::sequence::common::spec_ok_prefix;
use crate::sequence::common::spec_stream;
use crate::sequence::event::batched::convert_events_into_batches;
use crate::sequence::event::batched::flatten_batches_to_events;
use crate::sequence::event::batched::spec_batch_views;
use crate::sequence::event::batched::spec_batches;
use crate::sequence::event::batched::spec_flattened;
use crate::sequence::event::batched::EventBatch;
use crate::sequence::event::batched::flatten_track_batches_to_events;
use crate::sequence::event::batched::spec_flattened_tracks;
use crate::sequence::event::delta::Delta;
use crate::sequence::event::track::into_track_events;
use crate::sequence::event::track::spec_track_events;
use crate::sequence::event::track::Track;
use crate::sequence::event::merge_events::merge_events_array;
use crate::sequence::event::merge_events::spec_merge_array_abs;
use crate::sequence::event::merge_events::spec_streams;
use crate::sequence::event::merge_events::spec_to_deltas;
use crate::io::readers::FullRamTrackReader;
use crate::io::readers::RAMReader;
use crate::io::readers::MAX_RAM_FILE_LEN;
use crate::io::track_parser::TrackParser;

verus! {

/// Where the body of a track lies in the file.
#[derive(Debug, Clone, Copy, PartialEq, Eq)]
pub struct TrackPos {
    pub pos: u64,
    pub len: u32,
}

/// The magic of the header chunk.
pub open spec fn spec_header_magic() -> Seq<u8> {
    seq![0x4Du8, 0x54u8, 0x68u8, 0x64u8]
}

/// The magic of a track chunk.
pub open spec fn spec_track_magic() -> Seq<u8> {
    seq![0x4Du8, 0x54u8, 0x72u8, 0x6Bu8]
}

/// The big-endian value of two bytes.
pub open spec fn spec_be16(b0: u8, b1: u8) -> u16 {
    (b0 * 256 + b1) as u16
}

/// The big-endian value of four bytes.
pub open spec fn spec_be32(b0: u8, b1: u8, b2: u8, b3: u8) -> u32 {
    (b0 * 16777216 + b1 * 65536 + b2 * 256 + b3) as u32
}

/// The length field of the chunk that starts at `pos`, if eight bytes are
/// there and the first four are `magic`.
pub open spec fn spec_chunk_len(file: Seq<u8>, pos: int, magic: Seq<u8>) -> Option<u32> {
    if 0 <= pos && pos + 8 <= file.len() && file.subrange(pos, pos + 4) == magic {
        Some(spec_be32(file[pos + 4], file[pos + 5], file[pos + 6], file[pos + 7]))
    } else {
        None
    }
}

/// The bodies of the track chunks that fill `file` from `pos` to its end,
/// if track chunks do fill it exactly.
pub open spec fn spec_scan_tracks(file: Seq<u8>, pos: int) -> Option<Seq<TrackPos>>
    decreases
            (if pos <= file.len() {
                file.len() - pos
            } else {
                0
            }),
{
    if pos < 0 || pos > file.len() {
        None
    } else if pos == file.len() {
        Some(Seq::empty())
    } else {
        match spec_chunk_len(file, pos, spec_track_magic()) {
            None => None,
            Some(len) => match spec_scan_tracks(file, pos + 8 + len) {
                None => None,
                Some(rest) => Some(seq![TrackPos { pos: (pos + 8) as u64, len }] + rest),
            },
        }
    }
}

/// What a file holds: its format word, its division word and the places of
/// its tracks. The file must start with a header chunk of length six, and
/// track chunks must fill the rest; the track count of the header is not
/// read.
pub open spec fn spec_parse_file(file: Seq<u8>) -> Option<(u16, u16, Seq<TrackPos>)> {
    if spec_chunk_len(file, 0, spec_header_magic()) != Some(6u32) || file.len() < 14 {
        None
    } else {
        match spec_scan_tracks(file, 14) {
            None => None,
            Some(tracks) => Some(
                (spec_be16(file[8], file[9]), spec_be16(file[12], file[13]), tracks),
            ),
        }
    }
}

/// Reads a chunk header from its eight bytes: its length field, if the
/// header starts with `magic`.
pub fn parse_chunk_header(bytes: &Vec<u8>, magic: [u8; 4]) -> (r: Result<u32, MIDILoadError>)
    ensures
        match spec_chunk_len(bytes@, 0, magic@) {
            Some(len) => r == Ok::<u32, MIDILoadError>(len),
            None => r == Err::<u32, MIDILoadError>(MIDILoadError::CorruptChunks),
        },
{
    if bytes.len() < 8 {
        return Err(MIDILoadError::CorruptChunks);
    }
    let mut i: usize = 0;
    while i < 4
        invariant
            i <= 4,
            bytes@.len() >= 8,
            magic@.len() == 4,
            forall|j: int| 0 <= j < i ==> bytes@[j] == magic@[j],
        decreases 4 - i,
    {
        if magic[i] != bytes[i] {
            assert(bytes@.subrange(0, 4)[i as int] == bytes@[i as int]);
            return Err(MIDILoadError::CorruptChunks);
        }
        i += 1;
    }
    assert(bytes@.subrange(0, 4) =~= magic@);
    Ok(bytes_to_val(bytes[4], bytes[5], bytes[6], bytes[7]))
}

/// Reads the header of the chunk at `pos`: its length field, if the chunk
/// starts with `magic`.
pub fn read_header(reader: &RAMReader, pos: u64, magic: [u8; 4]) -> (r: Result<
    u32,
    MIDILoadError,
>)
    ensures
        match spec_chunk_len(reader@, pos as int, magic@) {
            Some(len) => r == Ok::<u32, MIDILoadError>(len),
            None => r == Err::<u32, MIDILoadError>(MIDILoadError::CorruptChunks),
        },
{
    let bytes = reader.read_bytes(pos, 8)?;
    assert(bytes@.subrange(0, 4) =~= reader@.subrange(pos as int, pos + 4));
    parse_chunk_header(&bytes, magic)
}

/// The big-endian value of four bytes.
pub fn bytes_to_val(b0: u8, b1: u8, b2: u8, b3: u8) -> (v: u32)
    ensures
        v == spec_be32(b0, b1, b2, b3),
{
    (b0 as u32) * 16777216 + (b1 as u32) * 65536 + (b2 as u32) * 256 + (b3 as u32)
}

/// The length field of a chunk header of eight bytes.
pub open spec fn header_len_of(header: Seq<u8>) -> u32 {
    spec_be32(header[4], header[5], header[6], header[7])
}

/// The format word and the division word of a file, from its first
/// fourteen bytes, if they are a header chunk of length six.
pub open spec fn spec_file_header(header: Seq<u8>) -> Option<(u16, u16)> {
    if header.len() < 14 || spec_chunk_len(header, 0, spec_header_magic()) != Some(6u32) {
        None
    } else {
        Some((spec_be16(header[8], header[9]), spec_be16(header[12], header[13])))
    }
}

/// Reads the header chunk from the first fourteen bytes of a file: the
/// format word and the division word. Fewer bytes, another magic or
/// another length than six are refused as corrupt.
pub fn read_file_header(header: &Vec<u8>) -> (r: Result<(u16, u16), MIDILoadError>)
    ensures
        match spec_file_header(header@) {
            Some(words) => r == Ok::<(u16, u16), MIDILoadError>(words),
            None => r == Err::<(u16, u16), MIDILoadError>(MIDILoadError::CorruptChunks),
        },
{
    if header.len() < 14 {
        return Err(MIDILoadError::CorruptChunks);
    }
    let header_len = parse_chunk_header(header, [0x4D, 0x54, 0x68, 0x64])?;
    if header_len != 6 {
        return Err(MIDILoadError::CorruptChunks);
    }
    let format: u16 = (header[8] as u16) * 256 + (header[9] as u16);
    let ppq: u16 = (header[12] as u16) * 256 + (header[13] as u16);
    Ok((format, ppq))
}

/// The track chunk whose header `header` stands at `pos` in a file of
/// `file_len` bytes: where its body lies, and where the chunk after it
/// starts. There is none where fewer than eight bytes are left at `pos`,
/// where the header does not start with the magic of a track, or where the
/// body would leave the file.
pub open spec fn spec_next_track_chunk(file_len: u64, pos: u64, header: Seq<u8>) -> Option<
    (TrackPos, u64),
> {
    if pos > file_len || file_len - pos < 8 {
        None
    } else {
        match spec_chunk_len(header, 0, spec_track_magic()) {
            None => None,
            Some(len) => if len > file_len - pos - 8 {
                None
            } else {
                Some((TrackPos { pos: (pos + 8) as u64, len }, (pos + 8 + len) as u64))
            },
        }
    }
}

/// One step of the walk over the track chunks of a file: decides from the
/// header read at `pos` where the body of the track lies and where the
/// walk goes on, or that the chunks are corrupt.
pub fn next_track_chunk(file_len: u64, pos: u64, header: &Vec<u8>) -> (r: Result<
    (TrackPos, u64),
    MIDILoadError,
>)
    ensures
        match spec_next_track_chunk(file_len, pos, header@) {
            Some(step) => r == Ok::<(TrackPos, u64), MIDILoadError>(step),
            None => r == Err::<(TrackPos, u64), MIDILoadError>(MIDILoadError::CorruptChunks),
        },
{
    if pos > file_len || file_len - pos < 8 {
        return Err(MIDILoadError::CorruptChunks);
    }
    let len: u32 = parse_chunk_header(header, [0x4D, 0x54, 0x72, 0x6B])?;
    if len as u64 > file_len - pos - 8 {
        return Err(MIDILoadError::CorruptChunks);
    }
    Ok((TrackPos { len, pos: pos + 8 }, pos + 8 + len as u64))
}

/// A file whose chunks have been found.
#[derive(Debug)]
pub struct MIDIFile {
    reader: RAMReader,
    track_positions: Vec<TrackPos>,
    format: u16,
    ppq: u16,
}

impl MIDIFile {
    /// The bytes of the file.
    pub closed spec fn spec_bytes(&self) -> Seq<u8> {
        self.reader@
    }

    pub closed spec fn spec_ppq(&self) -> u16 {
        self.ppq
    }

    pub closed spec fn spec_format(&self) -> u16 {
        self.format
    }

    /// The places of the track bodies, in the order of the tracks.
    pub closed spec fn spec_tracks(&self) -> Seq<TrackPos> {
        self.track_positions@
    }

    /// The file holds what its bytes say, and every track body lies in it.
    pub closed spec fn wf(&self) -> bool {
        &&& spec_parse_file(self.reader@) == Some((self.format, self.ppq, self.track_positions@))
        &&& forall|i: int|
            0 <= i < self.track_positions@.len() ==> (#[trigger] self.track_positions@[i]).pos
                + self.track_positions@[i].len <= self.reader@.len()
    }

    pub proof fn lemma_wf(&self)
        requires
            self.wf(),
        ensures
            spec_parse_file(self.spec_bytes()) == Some(
                (self.spec_format(), self.spec_ppq(), self.spec_tracks()),
            ),
            forall|i: int|
                0 <= i < self.spec_tracks().len() ==> (#[trigger] self.spec_tracks()[i]).pos
                    + self.spec_tracks()[i].len <= self.spec_bytes().len(),
    {
    }

    /// Finds the chunks of the file that `reader` holds.
    pub fn new_from_disk_reader(reader: RAMReader) -> (r: Result<Self, MIDILoadError>)
        ensures
            match spec_parse_file(reader@) {
                Some((format, ppq, tracks)) => r is Ok && r->Ok_0.wf() && r->Ok_0.spec_bytes()
                    == reader@,
                None => r == Err::<Self, MIDILoadError>(MIDILoadError::CorruptChunks),
            },
    {
        let header = reader.read_bytes(0, 14)?;
        assert(header@.subrange(0, 4) =~= reader@.subrange(0, 4));
        let (format, ppq) = read_file_header(&header)?;
        let total: u64 = reader.len();
        let mut pos: u64 = 14;
        let mut track_positions: Vec<TrackPos> = Vec::new();
        let ghost file = reader@;
        assert(track_positions@ + Seq::<TrackPos>::empty() =~= track_positions@);
        while pos != total
            invariant
                file == reader@,
                total == file.len(),
                14 <= pos <= total,
                forall|i: int|
                    0 <= i < track_positions@.len() ==> (#[trigger] track_positions@[i]).pos
                        + track_positions@[i].len <= file.len(),
                match spec_scan_tracks(file, pos as int) {
                    Some(rest) => spec_scan_tracks(file, 14) == Some(track_positions@ + rest),
                    None => spec_scan_tracks(file, 14) is None,
                },
            decreases total - pos,
        {
            let header = reader.read_bytes(pos, 8)?;
            assert(header@.subrange(0, 4) =~= file.subrange(pos as int, pos + 4));
            proof {
                if pos + 8 + header_len_of(header@) > total {
                    lemma_scan_needs_room(file, pos + 8 + header_len_of(header@));
                }
            }
            let (at, next) = next_track_chunk(total, pos, &header)?;
            let ghost before = track_positions@;
            track_positions.push(at);
            proof {
                match spec_scan_tracks(file, next as int) {
                    Some(rest) => {
                        assert(track_positions@ + rest =~= before + (seq![at] + rest));
                    },
                    None => {},
                }
            }
            pos = next;
        }
        assert(track_positions@ + Seq::<TrackPos>::empty() =~= track_positions@);
        Ok(MIDIFile { reader, ppq, format, track_positions })
    }

    /// Takes the bytes of a file into memory and finds its chunks. The
    /// file must not be longer than [`MAX_RAM_FILE_LEN`].
    pub fn open_from_stream_in_ram(stream: Vec<u8>) -> (r: Result<Self, MIDILoadError>)
        requires
            stream@.len() <= MAX_RAM_FILE_LEN,
        ensures
            match spec_parse_file(stream@) {
                Some((format, ppq, tracks)) => r is Ok && r->Ok_0.wf() && r->Ok_0.spec_bytes()
                    == stream@,
                None => r == Err::<Self, MIDILoadError>(MIDILoadError::CorruptChunks),
            },
    {
        let reader = RAMReader::new(stream)?;
        MIDIFile::new_from_disk_reader(reader)
    }

    /// A reader over the body of track `track`.
    pub fn open_track_reader(&self, track: u32) -> (r: FullRamTrackReader)
        requires
            self.wf(),
            track < self.spec_tracks().len(),
        ensures
            r.wf(),
            r.spec_data() == self.spec_bytes().subrange(
                self.spec_tracks()[track as int].pos as int,
                self.spec_tracks()[track as int].pos + self.spec_tracks()[track as int].len,
            ),
            r.spec_origin() == self.spec_tracks()[track as int].pos,
            r.spec_start() == 0,
            r.spec_pos() == 0,
            r.spec_track_number() == Some(track),
    {
        let pos = self.track_positions[track as usize];
        self.reader.open_reader(Some(track), pos.pos, pos.len as u64)
    }

    /// A parser at the start of track `track`.
    pub fn iter_track(&self, track: u32) -> (r: TrackParser)
        requires
            self.wf(),
            track < self.spec_tracks().len(),
        ensures
            r.wf(),
            r.spec_data() == self.spec_bytes().subrange(
                self.spec_tracks()[track as int].pos as int,
                self.spec_tracks()[track as int].pos + self.spec_tracks()[track as int].len,
            ),
            r.spec_origin() == self.spec_tracks()[track as int].pos,
            r.spec_cursor() == 0,
            r.spec_status() == 0,
            !r.spec_ended(),
            r.spec_track_number() == Some(track),
            r.spec_end_error() == (MIDIParseError::UnexpectedTrackEnd {
                track_number: Some(track),
                track_start: self.spec_tracks()[track as int].pos,
                expected_track_end: (self.spec_tracks()[track as int].pos
                    + self.spec_tracks()[track as int].len) as u64,
                found_track_end: (self.spec_tracks()[track as int].pos
                    + self.spec_tracks()[track as int].len) as u64,
            }),
    {
        let reader = self.open_track_reader(track);
        proof {
            self.lemma_wf();
            let at = self.spec_tracks()[track as int];
            assert(at.pos + at.len <= self.spec_bytes().len());
            assert(reader.spec_data().len() == at.len);
        }
        TrackParser::new(reader)
    }

    /// A parser at the start of every track, in the order of the tracks.
    /// Tracks beyond the range of a `u32` are left out.
    pub fn iter_all_tracks(&self) -> (r: Vec<TrackParser>)
        requires
            self.wf(),
        ensures
            r@.len() == self.spec_tracks().len() || (r@.len() == u32::MAX
                && self.spec_tracks().len() > u32::MAX),
            forall|i: int|
                0 <= i < r@.len() ==> {
                    let p = #[trigger] r@[i];
                    &&& p.wf()
                    &&& p.spec_data() == self.spec_bytes().subrange(
                        self.spec_tracks()[i].pos as int,
                        self.spec_tracks()[i].pos + self.spec_tracks()[i].len,
                    )
                    &&& p.spec_origin() == self.spec_tracks()[i].pos
                    &&& p.spec_cursor() == 0
                    &&& p.spec_status() == 0
                    &&& !p.spec_ended()
                    &&& p.spec_track_number() == Some(i as u32)
                    &&& p.spec_end_error() == (MIDIParseError::UnexpectedTrackEnd {
                        track_number: Some(i as u32),
                        track_start: self.spec_tracks()[i].pos,
                        expected_track_end: (self.spec_tracks()[i].pos
                            + self.spec_tracks()[i].len) as u64,
                        found_track_end: (self.spec_tracks()[i].pos + self.spec_tracks()[i].len) as u64,
                    })
                },
    {
        let mut tracks: Vec<TrackParser> = Vec::new();
        let mut i: u32 = 0;
        while (i as usize) < self.track_positions.len() && i < u32::MAX
            invariant
                self.wf(),
                i <= self.spec_tracks().len(),
                tracks@.len() == i,
                forall|k: int|
                    0 <= k < tracks@.len() ==> {
                        let p = #[trigger] tracks@[k];
                        &&& p.wf()
                        &&& p.spec_data() == self.spec_bytes().subrange(
                            self.spec_tracks()[k].pos as int,
                            self.spec_tracks()[k].pos + self.spec_tracks()[k].len,
                        )
                        &&& p.spec_origin() == self.spec_tracks()[k].pos
                        &&& p.spec_cursor() == 0
                        &&& p.spec_status() == 0
                        &&& !p.spec_ended()
                        &&& p.spec_track_number() == Some(k as u32)
                        &&& p.spec_end_error() == (MIDIParseError::UnexpectedTrackEnd {
                            track_number: Some(k as u32),
                            track_start: self.spec_tracks()[k].pos,
                            expected_track_end: (self.spec_tracks()[k].pos
                                + self.spec_tracks()[k].len) as u64,
                            found_track_end: (self.spec_tracks()[k].pos
                                + self.spec_tracks()[k].len) as u64,
                        })
                    },
            decreases u32::MAX - i,
        {
            let parser = self.iter_track(i);
            tracks.push(parser);
            i += 1;
        }
        tracks
    }

    /// Whether `events` is what track `track` of the file holds.
    pub open spec fn spec_is_track(
        &self,
        track: int,
        events: Seq<Result<Delta<u64, Event>, MIDIParseError>>,
    ) -> bool {
        let at = self.spec_tracks()[track];
        spec_collected_from(
            events,
            self.spec_bytes().subrange(at.pos as int, at.pos + at.len),
            0,
            0,
            Some(track as u32),
            at.pos as int,
            MIDIParseError::UnexpectedTrackEnd {
                track_number: Some(track as u32),
                track_start: at.pos,
                expected_track_end: (at.pos + at.len) as u64,
                found_track_end: (at.pos + at.len) as u64,
            },
        )
    }

    /// Whether `batches` holds the events of track `track` of the file,
    /// gathered into batches of events that stand at the same time.
    pub open spec fn spec_is_batched_track(
        &self,
        track: int,
        batches: Seq<Result<Delta<u64, EventBatch<Event>>, MIDIParseError>>,
    ) -> bool {
        exists|events: Seq<Result<Delta<u64, Event>, MIDIParseError>>|
            {
                &&& #[trigger] self.spec_is_track(track, events)
                &&& spec_first_error(batches) == spec_first_error(events)
                &&& spec_batch_views(spec_ok_prefix(batches)) == spec_batches(
                    spec_ok_prefix(events),
                    spec_ok_prefix(events).len() as int,
                )
                &&& batches == spec_stream(spec_ok_prefix(batches), spec_first_error(events))
            }
    }

    /// Whether `merged` is the merge of the batched tracks of the file.
    pub open spec fn spec_is_merged(
        &self,
        merged: Seq<Result<Delta<u64, EventBatch<Event>>, MIDIParseError>>,
    ) -> bool {
        exists|tracks: Seq<Seq<Result<Delta<u64, EventBatch<Event>>, MIDIParseError>>>|
            {
                &&& tracks.len() == self.spec_tracks().len()
                &&& forall|i: int|
                    0 <= i < tracks.len() ==> self.spec_is_batched_track(i, #[trigger] tracks[i])
                &&& merged == spec_to_deltas(#[trigger] spec_merge_array_abs(tracks), 0)
            }
    }

    /// The events of all tracks in batches of events that stand at the
    /// same time, merged into one stream; a batch holds events of one
    /// track. The file must not hold more tracks than a `u32` counts.
    pub fn iter_all_events_merged_batches(&self) -> (r: Vec<
        Result<Delta<u64, EventBatch<Event>>, MIDIParseError>,
    >)
        requires
            self.wf(),
            self.spec_tracks().len() <= u32::MAX,
            2 * self.spec_tracks().len() + 2 <= usize::MAX,
        ensures
            self.spec_is_merged(r@),
    {
        let mut parsers = self.iter_all_tracks();
        let n: usize = parsers.len();
        let mut batched: Vec<Vec<Result<Delta<u64, EventBatch<Event>>, MIDIParseError>>> =
            Vec::new();
        let mut i: usize = 0;
        proof {
            self.lemma_wf();
        }
        while i < n
            invariant
                self.wf(),
                i <= n,
                n == self.spec_tracks().len(),
                n <= u32::MAX,
                parsers@.len() == n,
                batched@.len() == i,
                forall|k: int|
                    i <= k < n ==> {
                        let p = #[trigger] parsers@[k];
                        &&& p.wf()
                        &&& p.spec_data() == self.spec_bytes().subrange(
                            self.spec_tracks()[k].pos as int,
                            self.spec_tracks()[k].pos + self.spec_tracks()[k].len,
                        )
                        &&& p.spec_origin() == self.spec_tracks()[k].pos
                        &&& p.spec_cursor() == 0
                        &&& p.spec_status() == 0
                        &&& !p.spec_ended()
                        &&& p.spec_track_number() == Some(k as u32)
                        &&& p.spec_end_error() == (MIDIParseError::UnexpectedTrackEnd {
                            track_number: Some(k as u32),
                            track_start: self.spec_tracks()[k].pos,
                            expected_track_end: (self.spec_tracks()[k].pos
                                + self.spec_tracks()[k].len) as u64,
                            found_track_end: (self.spec_tracks()[k].pos
                                + self.spec_tracks()[k].len) as u64,
                        })
                    },
                forall|k: int|
                    0 <= k < i ==> self.spec_is_batched_track(k, (#[trigger] batched@[k])@),
            decreases n - i,
        {
            let ghost before = parsers@;
            let events = parsers[i].collect();
            assert(self.spec_is_track(i as int, events@));
            proof {
                assert forall|k: int| i < k < n implies parsers@[k] == before[k] by {}
            }
            let batches = convert_events_into_batches(events);
            assert(self.spec_is_batched_track(i as int, batches@));
            batched.push(batches);
            i += 1;
        }
        let ghost tracks = spec_streams(batched@);
        let r = merge_events_array(batched);
        assert(self.spec_is_merged(r@)) by {
            assert forall|k: int| 0 <= k < tracks.len() implies self.spec_is_batched_track(
                k,
                #[trigger] tracks[k],
            ) by {}
            assert(r@ == spec_to_deltas(spec_merge_array_abs(tracks), 0));
        }
        r
    }

    /// The events of all tracks, merged into one stream: the merged
    /// batches of [`Self::iter_all_events_merged_batches`], taken apart
    /// into their events. The file must not hold more tracks than a `u32`
    /// counts.
    pub fn iter_all_events_merged(&self) -> (r: Vec<Result<Delta<u64, Event>, MIDIParseError>>)
        requires
            self.wf(),
            self.spec_tracks().len() <= u32::MAX,
            2 * self.spec_tracks().len() + 2 <= usize::MAX,
        ensures
            exists|merged: Seq<Result<Delta<u64, EventBatch<Event>>, MIDIParseError>>|
                {
                    &&& #[trigger] self.spec_is_merged(merged)
                    &&& r@ == spec_stream(
                        spec_flattened(spec_ok_prefix(merged), spec_ok_prefix(merged).len() as int),
                        spec_first_error(merged),
                    )
                },
    {
        let merged_batches = self.iter_all_events_merged_batches();
        flatten_batches_to_events(merged_batches)
    }

    /// Whether `marked` holds the batched events of track `track` of the
    /// file, each batch marked with the number of the track.
    pub open spec fn spec_is_marked_track(
        &self,
        track: int,
        marked: Seq<Result<Delta<u64, Track<EventBatch<Event>>>, MIDIParseError>>,
    ) -> bool {
        exists|batches: Seq<Result<Delta<u64, EventBatch<Event>>, MIDIParseError>>|
            {
                &&& #[trigger] self.spec_is_batched_track(track, batches)
                &&& marked == spec_stream(
                    spec_track_events(spec_ok_prefix(batches), track as u32),
                    spec_first_error(batches),
                )
            }
    }

    /// Whether `merged` is the merge of the batched and marked tracks of
    /// the file.
    pub open spec fn spec_is_merged_marked(
        &self,
        merged: Seq<Result<Delta<u64, Track<EventBatch<Event>>>, MIDIParseError>>,
    ) -> bool {
        exists|tracks: Seq<Seq<Result<Delta<u64, Track<EventBatch<Event>>>, MIDIParseError>>>|
            {
                &&& tracks.len() == self.spec_tracks().len()
                &&& forall|i: int|
                    0 <= i < tracks.len() ==> self.spec_is_marked_track(i, #[trigger] tracks[i])
                &&& merged == spec_to_deltas(#[trigger] spec_merge_array_abs(tracks), 0)
            }
    }

    /// As [`Self::iter_all_events_merged_batches`], with every batch marked
    /// with the number of its track.
    pub fn iter_all_track_events_merged_batches(&self) -> (r: Vec<
        Result<Delta<u64, Track<EventBatch<Event>>>, MIDIParseError>,
    >)
        requires
            self.wf(),
            self.spec_tracks().len() <= u32::MAX,
            2 * self.spec_tracks().len() + 2 <= usize::MAX,
        ensures
            self.spec_is_merged_marked(r@),
    {
        let mut parsers = self.iter_all_tracks();
        let n: usize = parsers.len();
        let mut marked: Vec<Vec<Result<Delta<u64, Track<EventBatch<Event>>>, MIDIParseError>>> =
            Vec::new();
        let mut i: usize = 0;
        proof {
            self.lemma_wf();
        }
        while i < n
            invariant
                self.wf(),
                i <= n,
                n == self.spec_tracks().len(),
                n <= u32::MAX,
                parsers@.len() == n,
                marked@.len() == i,
                forall|k: int|
                    i <= k < n ==> {
                        let p = #[trigger] parsers@[k];
                        &&& p.wf()
                        &&& p.spec_data() == self.spec_bytes().subrange(
                            self.spec_tracks()[k].pos as int,
                            self.spec_tracks()[k].pos + self.spec_tracks()[k].len,
                        )
                        &&& p.spec_origin() == self.spec_tracks()[k].pos
                        &&& p.spec_cursor() == 0
                        &&& p.spec_status() == 0
                        &&& !p.spec_ended()
                        &&& p.spec_track_number() == Some(k as u32)
                        &&& p.spec_end_error() == (MIDIParseError::UnexpectedTrackEnd {
                            track_number: Some(k as u32),
                            track_start: self.spec_tracks()[k].pos,
                            expected_track_end: (self.spec_tracks()[k].pos
                                + self.spec_tracks()[k].len) as u64,
                            found_track_end: (self.spec_tracks()[k].pos
                                + self.spec_tracks()[k].len) as u64,
                        })
                    },
                forall|k: int|
                    0 <= k < i ==> self.spec_is_marked_track(k, (#[trigger] marked@[k])@),
            decreases n - i,
        {
            let ghost before = parsers@;
            let events = parsers[i].collect();
            assert(self.spec_is_track(i as int, events@));
            proof {
                assert forall|k: int| i < k < n implies parsers@[k] == before[k] by {}
            }
            let batches = convert_events_into_batches(events);
            assert(self.spec_is_batched_track(i as int, batches@));
            let with_track = into_track_events(batches, i as u32);
            assert(self.spec_is_marked_track(i as int, with_track@));
            marked.push(with_track);
            i += 1;
        }
        let ghost tracks = spec_streams(marked@);
        let r = merge_events_array(marked);
        assert(self.spec_is_merged_marked(r@)) by {
            assert forall|k: int| 0 <= k < tracks.len() implies self.spec_is_marked_track(
                k,
                #[trigger] tracks[k],
            ) by {}
            assert(r@ == spec_to_deltas(spec_merge_array_abs(tracks), 0));
        }
        r
    }

    /// As [`Self::iter_all_events_merged`], with every event marked with
    /// the number of its track.
    pub fn iter_all_track_events_merged(&self) -> (r: Vec<
        Result<Delta<u64, Track<Event>>, MIDIParseError>,
    >)
        requires
            self.wf(),
            self.spec_tracks().len() <= u32::MAX,
            2 * self.spec_tracks().len() + 2 <= usize::MAX,
        ensures
            exists|merged: Seq<Result<Delta<u64, Track<EventBatch<Event>>>, MIDIParseError>>|
                {
                    &&& #[trigger] self.spec_is_merged_marked(merged)
                    &&& r@ == spec_stream(
                        spec_flattened_tracks(
                            spec_ok_prefix(merged),
                            spec_ok_prefix(merged).len() as int,
                        ),
                        spec_first_error(merged),
                    )
                },
    {
        let merged_batches = self.iter_all_track_events_merged_batches();
        flatten_track_batches_to_events(merged_batches)
    }

    /// The division word of the header, read as pulses per quarter note.
    pub fn ppq(&self) -> (r: u16)
        ensures
            r == self.spec_ppq(),
    {
        self.ppq
    }

    /// The format word of the header.
    pub fn format(&self) -> (r: u16)
        ensures
            r == self.spec_format(),
    {
        self.format
    }

    /// The number of track chunks found.
    pub fn track_count(&self) -> (r: usize)
        ensures
            r == self.spec_tracks().len(),
    {
        self.track_positions.len()
    }
}

pub proof fn lemma_scan_needs_room(file: Seq<u8>, pos: int)
    requires
        pos > file.len(),
    ensures
        spec_scan_tracks(file, pos) is None,
{
}

} // verus!
