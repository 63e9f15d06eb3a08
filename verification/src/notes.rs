use vstd::prelude::*;

verus! {

/// A note: where it starts, how long it lasts, and what is played.
#[derive(Debug, Clone, Copy, PartialEq, Eq)]
pub struct Note<T> {
    pub start: T,
    pub len: T,
    pub key: u8,
    pub channel: u8,
    pub velocity: u8,
}

/// What can be asked of a note.
pub trait MIDINote<T> {
    spec fn spec_start(&self) -> T;

    spec fn spec_len(&self) -> T;

    spec fn spec_key(&self) -> u8;

    spec fn spec_channel(&self) -> u8;

    spec fn spec_velocity(&self) -> u8;

    fn start(&self) -> (r: T)
        ensures
            r == self.spec_start(),
    ;

    fn len(&self) -> (r: T)
        ensures
            r == self.spec_len(),
    ;

    fn key(&self) -> (r: u8)
        ensures
            r == self.spec_key(),
    ;

    fn channel(&self) -> (r: u8)
        ensures
            r == self.spec_channel(),
    ;

    fn velocity(&self) -> (r: u8)
        ensures
            r == self.spec_velocity(),
    ;
}

impl<T: Copy> MIDINote<T> for Note<T> {
    open spec fn spec_start(&self) -> T {
        self.start
    }

    open spec fn spec_len(&self) -> T {
        self.len
    }

    open spec fn spec_key(&self) -> u8 {
        self.key
    }

    open spec fn spec_channel(&self) -> u8 {
        self.channel
    }

    open spec fn spec_velocity(&self) -> u8 {
        self.velocity
    }

    fn start(&self) -> (r: T) {
        self.start
    }

    fn len(&self) -> (r: T) {
        self.len
    }

    fn key(&self) -> (r: u8) {
        self.key
    }

    fn channel(&self) -> (r: u8) {
        self.channel
    }

    fn velocity(&self) -> (r: u8) {
        self.velocity
    }
}

impl Note<u64> {
    /// The time at which the note ends.
    pub open spec fn spec_end(&self) -> int {
        self.start + self.len
    }

    /// The time at which the note ends.
    pub fn end(&self) -> (r: u64)
        requires
            self.spec_end() <= u64::MAX,
        ensures
            r == self.spec_end(),
    {
        self.start + self.len
    }

    /// Moves the start and keeps the end.
    pub fn move_start(&mut self, start: u64)
        requires
            old(self).spec_end() <= u64::MAX,
            start <= old(self).spec_end(),
        ensures
            *final(self) == (Note { start, len: (old(self).spec_end() - start) as u64, ..*old(self) }),
    {
        let end: u64 = self.end();
        self.start = start;
        self.len = end - start;
    }

    /// Moves the end and keeps the start.
    pub fn set_end(&mut self, end: u64)
        requires
            old(self).start <= end,
        ensures
            *final(self) == (Note { len: (end - old(self).start) as u64, ..*old(self) }),
    {
        self.len = end - self.start;
    }

    /// Moves the start and keeps the length.
    pub fn set_start(&mut self, start: u64)
        ensures
            *final(self) == (Note { start, ..*old(self) }),
    {
        self.start = start;
    }

    /// Sets the length and keeps the start.
    pub fn set_len(&mut self, len: u64)
        ensures
            *final(self) == (Note { len, ..*old(self) }),
    {
        self.len = len;
    }

    pub fn set_key(&mut self, key: u8)
        ensures
            *final(self) == (Note { key, ..*old(self) }),
    {
        self.key = key;
    }

    pub fn set_channel(&mut self, channel: u8)
        ensures
            *final(self) == (Note { channel, ..*old(self) }),
    {
        self.channel = channel;
    }

    pub fn set_velocity(&mut self, velocity: u8)
        ensures
            *final(self) == (Note { velocity, ..*old(self) }),
    {
        self.velocity = velocity;
    }
}

} // verus!
