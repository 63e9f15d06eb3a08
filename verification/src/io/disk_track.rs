use vstd::prelude::*;
use crate::io::errors::MIDIParseError;

verus! {

/// The largest number of bytes asked for in one read of a track on disk.
pub const MAX_READ_LEN: u64 = 524288;

/// The number of reads of one track that are under way at a time.
pub const READS_AHEAD: usize = 3;

/// Where the reading of a track on disk stands: what has been asked for,
/// and what has been handed out. It decides what to ask for next; the
/// reads themselves are made elsewhere.
#[derive(Debug, Clone, Copy, PartialEq, Eq)]
pub struct DiskTrackState {
    /// The track number, kept for error reports only.
    pub track_number: Option<u32>,
    /// Where the track starts in the file.
    pub start: u64,
    /// The length of the track.
    pub len: u64,
    /// Where the buffer in use starts in the track.
    pub buffer_start: u64,
    /// The next byte of the buffer in use.
    pub buffer_pos: usize,
    /// Where the part of the track starts that no read has asked for.
    pub unrequested_data_start: u64,
}

impl DiskTrackState {
    /// No read asks for more than the track holds, and every position can
    /// be reported as a file offset.
    pub open spec fn wf(&self) -> bool {
        &&& self.start + self.len <= u64::MAX
        &&& self.unrequested_data_start <= self.len
        &&& self.buffer_start + self.buffer_pos <= u64::MAX - self.start
    }

    pub fn new(track_number: Option<u32>, start: u64, len: u64) -> (r: Self)
        requires
            start + len <= u64::MAX,
        ensures
            r.wf(),
            r == (DiskTrackState {
                track_number,
                start,
                len,
                buffer_start: 0,
                buffer_pos: 0,
                unrequested_data_start: 0,
            }),
    {
        DiskTrackState {
            track_number,
            start,
            len,
            buffer_start: 0,
            buffer_pos: 0,
            unrequested_data_start: 0,
        }
    }

    /// Whether every byte of the track has been asked for.
    pub fn finished_sending_reads(&self) -> (b: bool)
        ensures
            b == (self.unrequested_data_start == self.len),
    {
        self.unrequested_data_start == self.len
    }

    /// The length of the next read when the buffer for it is fresh: what
    /// is left to ask for, but no more than [`MAX_READ_LEN`].
    pub fn next_buffer_req_length(&self) -> (n: usize)
        requires
            self.wf(),
        ensures
            n == (if self.len - self.unrequested_data_start < MAX_READ_LEN {
                self.len - self.unrequested_data_start
            } else {
                MAX_READ_LEN as int
            }),
    {
        let left: u64 = self.len - self.unrequested_data_start;
        if left < MAX_READ_LEN {
            left as usize
        } else {
            MAX_READ_LEN as usize
        }
    }

    /// The next read to ask for, as a file offset and a length, when the
    /// buffer for it holds `buffer_len` bytes, or is fresh: nothing once
    /// the whole track has been asked for, else what
    /// [`Self::next_buffer_req_length`] says, but no more than the buffer
    /// holds. What is asked for counts as requested from then on.
    pub fn send_next_read(&mut self, buffer_len: Option<usize>) -> (r: Option<(u64, usize)>)
        requires
            old(self).wf(),
        ensures
            final(self).wf(),
            old(self).unrequested_data_start == old(self).len ==> r is None && *final(self) == *old(self),
            old(self).unrequested_data_start < old(self).len ==> {
                let fresh = if old(self).len - old(self).unrequested_data_start < MAX_READ_LEN {
                    old(self).len - old(self).unrequested_data_start
                } else {
                    MAX_READ_LEN as int
                };
                let length = match buffer_len {
                    Some(n) => if n < fresh {
                        n as int
                    } else {
                        fresh
                    },
                    None => fresh,
                };
                &&& r == Some(
                    ((old(self).unrequested_data_start + old(self).start) as u64, length as usize),
                )
                &&& *final(self) == (DiskTrackState {
                    unrequested_data_start: (old(self).unrequested_data_start + length) as u64,
                    ..*old(self)
                })
            },
    {
        if self.finished_sending_reads() {
            return None;
        }
        let mut next_len: usize = self.next_buffer_req_length();
        match buffer_len {
            Some(n) => {
                if n < next_len {
                    next_len = n;
                }
            },
            None => {},
        }
        let at: u64 = self.unrequested_data_start + self.start;
        self.unrequested_data_start = self.unrequested_data_start + next_len as u64;
        Some((at, next_len))
    }

    /// Counts one byte of a buffer of `buffer_len` bytes as handed out, and
    /// says whether that was the buffer's last byte; the buffer after it
    /// is then the one in use.
    pub fn consume(&mut self, buffer_len: usize) -> (exhausted: bool)
        requires
            old(self).wf(),
            old(self).buffer_pos < buffer_len,
            old(self).buffer_start + buffer_len <= u64::MAX - old(self).start,
        ensures
            final(self).wf(),
            exhausted == (old(self).buffer_pos + 1 == buffer_len),
            exhausted ==> *final(self) == (DiskTrackState {
                buffer_start: (old(self).buffer_start + buffer_len) as u64,
                buffer_pos: 0,
                ..*old(self)
            }),
            !exhausted ==> *final(self) == (DiskTrackState {
                buffer_pos: (old(self).buffer_pos + 1) as usize,
                ..*old(self)
            }),
    {
        self.buffer_pos = self.buffer_pos + 1;
        if self.buffer_pos == buffer_len {
            self.buffer_start = self.buffer_start + buffer_len as u64;
            self.buffer_pos = 0;
            true
        } else {
            false
        }
    }

    /// The file offset of the next byte to hand out.
    pub fn pos(&self) -> (p: u64)
        requires
            self.wf(),
        ensures
            p == self.start + self.buffer_start + self.buffer_pos,
    {
        self.start + self.buffer_start + self.buffer_pos as u64
    }

    /// Whether every byte of the track has been handed out.
    pub fn is_at_end(&self) -> (b: bool)
        requires
            self.wf(),
        ensures
            b == (self.buffer_start + self.buffer_pos >= self.len),
    {
        self.buffer_start + self.buffer_pos as u64 >= self.len
    }

    /// The failure reported when no buffer comes although bytes are
    /// missing.
    pub fn end_error(&self) -> (e: MIDIParseError)
        requires
            self.wf(),
        ensures
            e == (MIDIParseError::UnexpectedTrackEnd {
                track_number: self.track_number,
                track_start: self.start,
                expected_track_end: (self.start + self.len) as u64,
                found_track_end: (self.start + self.buffer_start + self.buffer_pos) as u64,
            }),
    {
        MIDIParseError::UnexpectedTrackEnd {
            track_number: self.track_number,
            track_start: self.start,
            expected_track_end: self.start + self.len,
            found_track_end: self.pos(),
        }
    }
}

} // verus!
