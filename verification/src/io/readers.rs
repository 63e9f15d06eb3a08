use vstd::prelude::*;
use crate::io::errors::MIDILoadError;
use crate::io::errors::MIDIParseError;

verus! {

/// The largest file, in bytes, that may be held in memory.
pub const MAX_RAM_FILE_LEN: u64 = 2147483648;

/// A whole file held in memory, with a cursor for sequential reads.
#[derive(Debug)]
pub struct RAMReader {
    bytes: Vec<u8>,
    pos: usize,
}

impl View for RAMReader {
    type V = Seq<u8>;

    closed spec fn view(&self) -> Seq<u8> {
        self.bytes@
    }
}

impl RAMReader {
    /// The position of the sequential cursor.
    pub closed spec fn spec_pos(&self) -> int {
        self.pos as int
    }

    /// Takes a file's bytes. The file must not be longer than
    /// [`MAX_RAM_FILE_LEN`].
    pub fn new(bytes: Vec<u8>) -> (r: Result<RAMReader, MIDILoadError>)
        requires
            bytes.len() <= MAX_RAM_FILE_LEN,
        ensures
            r is Ok,
            r->Ok_0@ == bytes@,
            r->Ok_0.spec_pos() == 0,
    {
        Ok(RAMReader { bytes, pos: 0 })
    }

    /// The byte under the cursor, or a failure where the cursor stands at
    /// the end of the file or beyond it. The cursor moves on by one either
    /// way.
    pub fn read_byte(&mut self) -> (r: Result<u8, MIDILoadError>)
        requires
            old(self).spec_pos() < usize::MAX,
        ensures
            final(self)@ == old(self)@,
            final(self).spec_pos() == old(self).spec_pos() + 1,
            old(self).spec_pos() < old(self)@.len() ==> r == Ok::<u8, MIDILoadError>(
                old(self)@[old(self).spec_pos()],
            ),
            old(self).spec_pos() >= old(self)@.len() ==> r == Err::<u8, MIDILoadError>(
                MIDILoadError::CorruptChunks,
            ),
    {
        let at: usize = self.pos;
        self.pos = at + 1;
        if at < self.bytes.len() {
            Ok(self.bytes[at])
        } else {
            Err(MIDILoadError::CorruptChunks)
        }
    }

    /// The position of the sequential cursor.
    pub fn pos(&self) -> (p: usize)
        ensures
            p == self.spec_pos(),
    {
        self.pos
    }

    /// The number of bytes in the file.
    pub fn len(&self) -> (n: u64)
        ensures
            n == self@.len(),
    {
        self.bytes.len() as u64
    }

    pub fn is_empty(&self) -> (b: bool)
        ensures
            b == (self@.len() == 0),
    {
        self.bytes.len() == 0
    }

    /// The `count` bytes that start at `pos`. A window that leaves the file
    /// is refused.
    pub fn read_bytes(&self, pos: u64, count: usize) -> (r: Result<Vec<u8>, MIDILoadError>)
        ensures
            pos + count <= self@.len() ==> r is Ok && r->Ok_0@ == self@.subrange(
                pos as int,
                pos + count,
            ),
            pos + count > self@.len() ==> r == Err::<Vec<u8>, MIDILoadError>(
                MIDILoadError::CorruptChunks,
            ),
    {
        let total: u64 = self.bytes.len() as u64;
        if pos > total || count as u64 > total - pos {
            return Err(MIDILoadError::CorruptChunks);
        }
        let first: usize = pos as usize;
        let mut out: Vec<u8> = Vec::new();
        let mut i: usize = 0;
        while i < count
            invariant
                i <= count,
                first + count <= self.bytes.len(),
                out@ == self.bytes@.subrange(first as int, first + i),
            decreases count - i,
        {
            out.push(self.bytes[first + i]);
            i += 1;
            assert(out@ =~= self.bytes@.subrange(first as int, first + i));
        }
        Ok(out)
    }

    /// Replaces `bytes` by the bytes of the file that start at `pos`, as
    /// many as `bytes` held. A window that leaves the file is refused.
    pub fn read_bytes_to(&self, pos: u64, bytes: Vec<u8>) -> (r: Result<Vec<u8>, MIDILoadError>)
        ensures
            pos + bytes.len() <= self@.len() ==> r is Ok && r->Ok_0@ == self@.subrange(
                pos as int,
                pos + bytes.len(),
            ),
            pos + bytes.len() > self@.len() ==> r == Err::<Vec<u8>, MIDILoadError>(
                MIDILoadError::CorruptChunks,
            ),
    {
        self.read_bytes(pos, bytes.len())
    }

    /// A reader over the `len` bytes of the file that start at `start`: the
    /// body of one track. The region must lie inside the file.
    pub fn open_reader(&self, track_number: Option<u32>, start: u64, len: u64) -> (r:
        FullRamTrackReader)
        requires
            start + len <= self@.len(),
        ensures
            r.wf(),
            r.spec_data() == self@.subrange(start as int, start + len),
            r.spec_origin() == start,
            r.spec_start() == 0,
            r.spec_pos() == 0,
            r.spec_track_number() == track_number,
    {
        let first: usize = start as usize;
        let count: usize = len as usize;
        let mut out: Vec<u8> = Vec::new();
        let mut i: usize = 0;
        while i < count
            invariant
                i <= count,
                first + count <= self.bytes.len(),
                out@ == self.bytes@.subrange(first as int, first + i),
            decreases count - i,
        {
            out.push(self.bytes[first + i]);
            i += 1;
            assert(out@ =~= self.bytes@.subrange(first as int, first + i));
        }
        assert(out@.subrange(0, count as int) =~= out@);
        FullRamTrackReader { track_number, origin: start, start: 0, bytes: out, pos: 0, end: count }
    }
}

/// A cursor over the bytes of one track that are held in memory.
#[derive(Debug)]
pub struct FullRamTrackReader {
    /// The track number, kept for error reports only.
    track_number: Option<u32>,
    /// Where `bytes[0]` lies in the file, kept for error reports only.
    origin: u64,
    start: usize,
    bytes: Vec<u8>,
    pos: usize,
    end: usize,
}

impl FullRamTrackReader {
    /// The bytes of the region, from the first byte of the buffer to the
    /// region's end.
    pub closed spec fn spec_data(&self) -> Seq<u8> {
        self.bytes@.subrange(0, self.end as int)
    }

    pub closed spec fn spec_track_number(&self) -> Option<u32> {
        self.track_number
    }

    pub closed spec fn spec_origin(&self) -> int {
        self.origin as int
    }

    pub closed spec fn spec_start(&self) -> int {
        self.start as int
    }

    /// The index in [`Self::spec_data`] of the next byte to read.
    pub closed spec fn spec_pos(&self) -> int {
        self.pos as int
    }

    /// The cursor lies in the region, the region in the buffer, and every
    /// position can be reported as a `u64` file offset.
    pub closed spec fn wf(&self) -> bool {
        &&& self.start <= self.pos <= self.end <= self.bytes.len()
        &&& self.origin + self.end <= u64::MAX
    }

    /// The failure reported when a read passes the region's end.
    pub open spec fn spec_end_error(&self) -> MIDIParseError {
        MIDIParseError::UnexpectedTrackEnd {
            track_number: self.spec_track_number(),
            track_start: (self.spec_origin() + self.spec_start()) as u64,
            expected_track_end: (self.spec_origin() + self.spec_data().len()) as u64,
            found_track_end: (self.spec_origin() + self.spec_data().len()) as u64,
        }
    }

    /// Whether `other` reads the same region, wherever its cursor stands.
    pub open spec fn same_region(&self, other: &Self) -> bool {
        &&& self.spec_data() == other.spec_data()
        &&& self.spec_origin() == other.spec_origin()
        &&& self.spec_start() == other.spec_start()
        &&& self.spec_track_number() == other.spec_track_number()
    }

    pub proof fn lemma_wf(&self)
        requires
            self.wf(),
        ensures
            0 <= self.spec_start() <= self.spec_pos() <= self.spec_data().len(),
            0 <= self.spec_origin(),
            self.spec_origin() + self.spec_data().len() <= u64::MAX,
    {
    }

    /// A reader over `bytes[start..end]`.
    pub fn new(track_number: Option<u32>, bytes: Vec<u8>, start: usize, end: usize) -> (r:
        FullRamTrackReader)
        requires
            start <= end <= bytes.len(),
        ensures
            r.wf(),
            r.spec_data() == bytes@.subrange(0, end as int),
            r.spec_origin() == 0,
            r.spec_start() == start,
            r.spec_pos() == start,
            r.spec_track_number() == track_number,
    {
        FullRamTrackReader { track_number, origin: 0, bytes, start, pos: start, end }
    }

    /// A reader over all of `bytes`, which stand at `origin` in their file.
    pub fn new_at(track_number: Option<u32>, origin: u64, bytes: Vec<u8>) -> (r:
        FullRamTrackReader)
        requires
            origin + bytes@.len() <= u64::MAX,
        ensures
            r.wf(),
            r.spec_data() == bytes@,
            r.spec_origin() == origin,
            r.spec_start() == 0,
            r.spec_pos() == 0,
            r.spec_track_number() == track_number,
    {
        let len: usize = bytes.len();
        assert(bytes@.subrange(0, len as int) =~= bytes@);
        FullRamTrackReader { track_number, origin, bytes, pos: 0, start: 0, end: len }
    }

    /// A reader over all of `bytes`.
    pub fn new_from_vec(track_number: Option<u32>, bytes: Vec<u8>) -> (r: FullRamTrackReader)
        ensures
            r.wf(),
            r.spec_data() == bytes@,
            r.spec_origin() == 0,
            r.spec_start() == 0,
            r.spec_pos() == 0,
            r.spec_track_number() == track_number,
    {
        let len: usize = bytes.len();
        assert(bytes@.subrange(0, len as int) =~= bytes@);
        FullRamTrackReader { track_number, origin: 0, bytes, pos: 0, start: 0, end: len }
    }

    /// The byte under the cursor; the cursor then moves on. At the region's
    /// end the read fails and nothing moves.
    pub fn read(&mut self) -> (r: Result<u8, MIDIParseError>)
        requires
            old(self).wf(),
        ensures
            final(self).wf(),
            final(self).same_region(old(self)),
            old(self).spec_pos() < old(self).spec_data().len() ==> r == Ok::<u8, MIDIParseError>(
                old(self).spec_data()[old(self).spec_pos()],
            ) && final(self).spec_pos() == old(self).spec_pos() + 1,
            old(self).spec_pos() >= old(self).spec_data().len() ==> r == Err::<
                u8,
                MIDIParseError,
            >(old(self).spec_end_error()) && final(self).spec_pos() == old(self).spec_pos(),
    {
        if self.pos == self.end {
            return Err(self.end_error());
        }
        let b: u8 = self.bytes[self.pos];
        self.pos += 1;
        Ok(b)
    }

    /// The failure reported when a read passes the region's end.
    pub fn end_error(&self) -> (e: MIDIParseError)
        requires
            self.wf(),
        ensures
            e == self.spec_end_error(),
    {
        MIDIParseError::UnexpectedTrackEnd {
            track_number: self.track_number,
            track_start: self.origin + self.start as u64,
            expected_track_end: self.origin + self.end as u64,
            found_track_end: self.origin + self.end as u64,
        }
    }

    /// The file offset of the next byte to read.
    pub fn pos(&self) -> (p: u64)
        requires
            self.wf(),
        ensures
            p == self.spec_origin() + self.spec_pos(),
    {
        self.origin + self.pos as u64
    }

    /// The number of bytes between the cursor and the region's end.
    pub fn remaining(&self) -> (n: usize)
        requires
            self.wf(),
        ensures
            n == self.spec_data().len() - self.spec_pos(),
    {
        self.end - self.pos
    }

    pub fn is_at_end(&self) -> (b: bool)
        requires
            self.wf(),
        ensures
            b == (self.spec_pos() == self.spec_data().len()),
    {
        self.pos == self.end
    }

    pub fn track_number(&self) -> (n: Option<u32>)
        ensures
            n == self.spec_track_number(),
    {
        self.track_number
    }
}

/// A cursor over the bytes of one track.
pub trait TrackReader {
    /// Whether the reader can be read from.
    spec fn reader_wf(&self) -> bool;

    /// The bytes of the track that have not been read.
    spec fn spec_remaining(&self) -> Seq<u8>;

    /// The file offset of the next byte to read.
    spec fn spec_position(&self) -> int;

    /// The track number, kept for error reports only.
    spec fn spec_number(&self) -> Option<u32>;

    fn track_number(&self) -> (n: Option<u32>)
        ensures
            n == self.spec_number(),
    ;

    /// The next byte of the track. At the track's end the read fails and
    /// nothing moves.
    fn read(&mut self) -> (r: Result<u8, MIDIParseError>)
        requires
            old(self).reader_wf(),
        ensures
            final(self).reader_wf(),
            final(self).spec_number() == old(self).spec_number(),
            old(self).spec_remaining().len() > 0 ==> r == Ok::<u8, MIDIParseError>(
                old(self).spec_remaining()[0],
            ) && final(self).spec_remaining() == old(self).spec_remaining().skip(1) && final(self).spec_position() == old(self).spec_position() + 1,
            old(self).spec_remaining().len() == 0 ==> r is Err && final(self).spec_remaining()
                == old(self).spec_remaining() && final(self).spec_position() == old(self).spec_position(),
    ;

    fn pos(&self) -> (p: u64)
        requires
            self.reader_wf(),
        ensures
            p == self.spec_position(),
    ;

    fn is_at_end(&self) -> (b: bool)
        requires
            self.reader_wf(),
        ensures
            b == (self.spec_remaining().len() == 0),
    ;
}

impl TrackReader for FullRamTrackReader {
    open spec fn reader_wf(&self) -> bool {
        self.wf()
    }

    open spec fn spec_remaining(&self) -> Seq<u8> {
        self.spec_data().skip(self.spec_pos())
    }

    open spec fn spec_position(&self) -> int {
        self.spec_origin() + self.spec_pos()
    }

    open spec fn spec_number(&self) -> Option<u32> {
        self.spec_track_number()
    }

    fn track_number(&self) -> (n: Option<u32>) {
        self.track_number
    }

    fn read(&mut self) -> (r: Result<u8, MIDIParseError>) {
        proof {
            self.lemma_wf();
        }
        let r = FullRamTrackReader::read(self);
        proof {
            let data = old(self).spec_data();
            let at = old(self).spec_pos();
            if at < data.len() {
                assert(data.skip(at)[0] == data[at]);
                assert(data.skip(at + 1) =~= data.skip(at).skip(1));
            }
        }
        r
    }

    fn pos(&self) -> (p: u64) {
        FullRamTrackReader::pos(self)
    }

    fn is_at_end(&self) -> (b: bool) {
        proof {
            self.lemma_wf();
        }
        FullRamTrackReader::is_at_end(self)
    }
}

/// A source of the bytes of a file.
pub trait MIDIReader {
    type ByteReader: TrackReader;

    /// The bytes of the file.
    spec fn spec_file(&self) -> Seq<u8>;

    /// Replaces `bytes` by the bytes of the file that start at `pos`, as
    /// many as `bytes` held. A window that leaves the file is refused.
    fn read_bytes_to(&self, pos: u64, bytes: Vec<u8>) -> (r: Result<Vec<u8>, MIDILoadError>)
        ensures
            r matches Ok(v) ==> pos + bytes.len() <= self.spec_file().len() && v@
                == self.spec_file().subrange(pos as int, pos + bytes.len()),
            pos + bytes.len() > self.spec_file().len() ==> r is Err,
    ;

    /// The `count` bytes that start at `pos`. A window that leaves the
    /// file is refused.
    fn read_bytes(&self, pos: u64, count: usize) -> (r: Result<Vec<u8>, MIDILoadError>)
        ensures
            r matches Ok(v) ==> pos + count <= self.spec_file().len() && v@
                == self.spec_file().subrange(pos as int, pos + count),
            pos + count > self.spec_file().len() ==> r is Err,
    ;

    fn len(&self) -> (n: u64)
        ensures
            n == self.spec_file().len(),
    ;

    fn is_empty(&self) -> (b: bool)
        ensures
            b == (self.spec_file().len() == 0),
    ;

    /// A reader over the `len` bytes of the file that start at `start`.
    fn open_reader(&self, track_number: Option<u32>, start: u64, len: u64) -> (r:
        Self::ByteReader)
        requires
            start + len <= self.spec_file().len(),
        ensures
            r.reader_wf(),
            r.spec_remaining() == self.spec_file().subrange(start as int, start + len),
            r.spec_position() == start,
            r.spec_number() == track_number,
    ;
}

impl MIDIReader for RAMReader {
    type ByteReader = FullRamTrackReader;

    open spec fn spec_file(&self) -> Seq<u8> {
        self@
    }

    /// A file in memory never fails on a window that lies in it, and
    /// refuses every other window as corrupt.
    fn read_bytes_to(&self, pos: u64, bytes: Vec<u8>) -> (r: Result<Vec<u8>, MIDILoadError>)
        ensures
            pos + bytes.len() <= self@.len() ==> r is Ok && r->Ok_0@ == self@.subrange(
                pos as int,
                pos + bytes.len(),
            ),
            pos + bytes.len() > self@.len() ==> r == Err::<Vec<u8>, MIDILoadError>(
                MIDILoadError::CorruptChunks,
            ),
    {
        RAMReader::read_bytes_to(self, pos, bytes)
    }

    /// A file in memory never fails on a window that lies in it, and
    /// refuses every other window as corrupt.
    fn read_bytes(&self, pos: u64, count: usize) -> (r: Result<Vec<u8>, MIDILoadError>)
        ensures
            pos + count <= self@.len() ==> r is Ok && r->Ok_0@ == self@.subrange(
                pos as int,
                pos + count,
            ),
            pos + count > self@.len() ==> r == Err::<Vec<u8>, MIDILoadError>(
                MIDILoadError::CorruptChunks,
            ),
    {
        RAMReader::read_bytes(self, pos, count)
    }

    fn len(&self) -> (n: u64) {
        RAMReader::len(self)
    }

    fn is_empty(&self) -> (b: bool) {
        RAMReader::is_empty(self)
    }

    fn open_reader(&self, track_number: Option<u32>, start: u64, len: u64) -> (r:
        FullRamTrackReader) {
        let r = RAMReader::open_reader(self, track_number, start, len);
        assert(r.spec_data().skip(0) =~= r.spec_data());
        r
    }
}

} // verus!
