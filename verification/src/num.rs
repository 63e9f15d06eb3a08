use vstd::prelude::*;

verus! {

/// Conversion of a time value into another numeric domain, as the `as`
/// operator converts it.
pub trait MIDINumInto<T> {
    spec fn spec_midi_num_into(&self) -> T;

    fn midi_num_into(&self) -> (r: T)
        ensures
            r == self.spec_midi_num_into(),
    ;
}

/// Conversion of a time value from another numeric domain, as the `as`
/// operator converts it.
pub trait MIDINumFrom<T>: Sized {
    spec fn spec_midi_num_from(val: T) -> Self;

    fn midi_num_from(val: T) -> (r: Self)
        ensures
            r == Self::spec_midi_num_from(val),
    ;
}

/// The integer types that can stand for a time.
pub trait MIDINum: Copy + MIDINumInto<i32> + MIDINumInto<u32> + MIDINumInto<i64> + MIDINumInto<
    u64,
> + MIDINumFrom<i32> + MIDINumFrom<u32> + MIDINumFrom<i64> + MIDINumFrom<u64> {

}

impl MIDINumInto<i32> for i32 {
    open spec fn spec_midi_num_into(&self) -> i32 {
        *self
    }

    fn midi_num_into(&self) -> (r: i32) {
        *self
    }
}

impl MIDINumFrom<i32> for i32 {
    open spec fn spec_midi_num_from(val: i32) -> i32 {
        val
    }

    fn midi_num_from(val: i32) -> (r: i32) {
        val
    }
}

impl MIDINumInto<u32> for i32 {
    open spec fn spec_midi_num_into(&self) -> u32 {
        *self as u32
    }

    fn midi_num_into(&self) -> (r: u32) {
        *self as u32
    }
}

impl MIDINumFrom<u32> for i32 {
    open spec fn spec_midi_num_from(val: u32) -> i32 {
        val as i32
    }

    fn midi_num_from(val: u32) -> (r: i32) {
        val as i32
    }
}

impl MIDINumInto<i64> for i32 {
    open spec fn spec_midi_num_into(&self) -> i64 {
        *self as i64
    }

    fn midi_num_into(&self) -> (r: i64) {
        *self as i64
    }
}

impl MIDINumFrom<i64> for i32 {
    open spec fn spec_midi_num_from(val: i64) -> i32 {
        val as i32
    }

    fn midi_num_from(val: i64) -> (r: i32) {
        val as i32
    }
}

impl MIDINumInto<u64> for i32 {
    open spec fn spec_midi_num_into(&self) -> u64 {
        *self as u64
    }

    fn midi_num_into(&self) -> (r: u64) {
        *self as u64
    }
}

impl MIDINumFrom<u64> for i32 {
    open spec fn spec_midi_num_from(val: u64) -> i32 {
        val as i32
    }

    fn midi_num_from(val: u64) -> (r: i32) {
        val as i32
    }
}

impl MIDINumInto<i32> for u32 {
    open spec fn spec_midi_num_into(&self) -> i32 {
        *self as i32
    }

    fn midi_num_into(&self) -> (r: i32) {
        *self as i32
    }
}

impl MIDINumFrom<i32> for u32 {
    open spec fn spec_midi_num_from(val: i32) -> u32 {
        val as u32
    }

    fn midi_num_from(val: i32) -> (r: u32) {
        val as u32
    }
}

impl MIDINumInto<u32> for u32 {
    open spec fn spec_midi_num_into(&self) -> u32 {
        *self
    }

    fn midi_num_into(&self) -> (r: u32) {
        *self
    }
}

impl MIDINumFrom<u32> for u32 {
    open spec fn spec_midi_num_from(val: u32) -> u32 {
        val
    }

    fn midi_num_from(val: u32) -> (r: u32) {
        val
    }
}

impl MIDINumInto<i64> for u32 {
    open spec fn spec_midi_num_into(&self) -> i64 {
        *self as i64
    }

    fn midi_num_into(&self) -> (r: i64) {
        *self as i64
    }
}

impl MIDINumFrom<i64> for u32 {
    open spec fn spec_midi_num_from(val: i64) -> u32 {
        val as u32
    }

    fn midi_num_from(val: i64) -> (r: u32) {
        val as u32
    }
}

impl MIDINumInto<u64> for u32 {
    open spec fn spec_midi_num_into(&self) -> u64 {
        *self as u64
    }

    fn midi_num_into(&self) -> (r: u64) {
        *self as u64
    }
}

impl MIDINumFrom<u64> for u32 {
    open spec fn spec_midi_num_from(val: u64) -> u32 {
        val as u32
    }

    fn midi_num_from(val: u64) -> (r: u32) {
        val as u32
    }
}

impl MIDINumInto<i32> for i64 {
    open spec fn spec_midi_num_into(&self) -> i32 {
        *self as i32
    }

    fn midi_num_into(&self) -> (r: i32) {
        *self as i32
    }
}

impl MIDINumFrom<i32> for i64 {
    open spec fn spec_midi_num_from(val: i32) -> i64 {
        val as i64
    }

    fn midi_num_from(val: i32) -> (r: i64) {
        val as i64
    }
}

impl MIDINumInto<u32> for i64 {
    open spec fn spec_midi_num_into(&self) -> u32 {
        *self as u32
    }

    fn midi_num_into(&self) -> (r: u32) {
        *self as u32
    }
}

impl MIDINumFrom<u32> for i64 {
    open spec fn spec_midi_num_from(val: u32) -> i64 {
        val as i64
    }

    fn midi_num_from(val: u32) -> (r: i64) {
        val as i64
    }
}

impl MIDINumInto<i64> for i64 {
    open spec fn spec_midi_num_into(&self) -> i64 {
        *self
    }

    fn midi_num_into(&self) -> (r: i64) {
        *self
    }
}

impl MIDINumFrom<i64> for i64 {
    open spec fn spec_midi_num_from(val: i64) -> i64 {
        val
    }

    fn midi_num_from(val: i64) -> (r: i64) {
        val
    }
}

impl MIDINumInto<u64> for i64 {
    open spec fn spec_midi_num_into(&self) -> u64 {
        *self as u64
    }

    fn midi_num_into(&self) -> (r: u64) {
        *self as u64
    }
}

impl MIDINumFrom<u64> for i64 {
    open spec fn spec_midi_num_from(val: u64) -> i64 {
        val as i64
    }

    fn midi_num_from(val: u64) -> (r: i64) {
        val as i64
    }
}

impl MIDINumInto<i32> for u64 {
    open spec fn spec_midi_num_into(&self) -> i32 {
        *self as i32
    }

    fn midi_num_into(&self) -> (r: i32) {
        *self as i32
    }
}

impl MIDINumFrom<i32> for u64 {
    open spec fn spec_midi_num_from(val: i32) -> u64 {
        val as u64
    }

    fn midi_num_from(val: i32) -> (r: u64) {
        val as u64
    }
}

impl MIDINumInto<u32> for u64 {
    open spec fn spec_midi_num_into(&self) -> u32 {
        *self as u32
    }

    fn midi_num_into(&self) -> (r: u32) {
        *self as u32
    }
}

impl MIDINumFrom<u32> for u64 {
    open spec fn spec_midi_num_from(val: u32) -> u64 {
        val as u64
    }

    fn midi_num_from(val: u32) -> (r: u64) {
        val as u64
    }
}

impl MIDINumInto<i64> for u64 {
    open spec fn spec_midi_num_into(&self) -> i64 {
        *self as i64
    }

    fn midi_num_into(&self) -> (r: i64) {
        *self as i64
    }
}

impl MIDINumFrom<i64> for u64 {
    open spec fn spec_midi_num_from(val: i64) -> u64 {
        val as u64
    }

    fn midi_num_from(val: i64) -> (r: u64) {
        val as u64
    }
}

impl MIDINumInto<u64> for u64 {
    open spec fn spec_midi_num_into(&self) -> u64 {
        *self
    }

    fn midi_num_into(&self) -> (r: u64) {
        *self
    }
}

impl MIDINumFrom<u64> for u64 {
    open spec fn spec_midi_num_from(val: u64) -> u64 {
        val
    }

    fn midi_num_from(val: u64) -> (r: u64) {
        val
    }
}

impl MIDINum for i32 {

}

impl MIDINum for u32 {

}

impl MIDINum for i64 {

}

impl MIDINum for u64 {

}

} // verus!
