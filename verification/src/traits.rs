//! The two capabilities that a byte stream can have.

use crate::error::Error;
use vstd::prelude::*;

verus! {

/// A stream that bytes can be read from.
pub trait Read {
    /// Places bytes at the front of `buf` and returns how many: never more
    /// than `buf` holds, possibly fewer, and none only at the end of the data
    /// or into an empty `buf`.
    fn read(&mut self, buf: &mut [u8]) -> (r: Result<usize, Error>)
        ensures
            final(buf)@.len() == old(buf)@.len(),
            r matches Ok(n) ==> n <= old(buf)@.len(),
    ;
}

/// A stream that bytes can be written to.
pub trait Write {
    /// Takes bytes from the front of `buf` and returns how many: never more
    /// than `buf` holds, possibly fewer.
    fn write(&mut self, buf: &[u8]) -> (r: Result<usize, Error>)
        ensures
            r matches Ok(n) ==> n <= buf@.len(),
    ;

    /// Pushes what the stream itself holds back on to where it is kept.
    fn flush(&mut self) -> (r: Result<usize, Error>);
}

} // verus!
