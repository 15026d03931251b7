//! What is decided around an open file: the access mode that it is opened
//! with, and what the numbers that the platform returns mean. The calls to
//! the platform themselves are made by whoever holds the descriptor.

use crate::error::{Error, Repr};
use vstd::prelude::*;
use vstd::string::StringExecFns;

verus! {

/// `libc::O_RDONLY`, which libc defines as 0 on every Linux target.
#[verifier::external_body]
fn o_rdonly() -> (flag: i32)
    ensures
        flag == 0,
{
    libc::O_RDONLY
}

/// `libc::O_WRONLY`, which libc defines as 1 on every Linux target.
#[verifier::external_body]
fn o_wronly() -> (flag: i32)
    ensures
        flag == 1,
{
    libc::O_WRONLY
}

/// The access mode with the bits of `flag` set, or cleared.
pub open spec fn with_flag(mode: i32, flag: i32, set: bool) -> i32 {
    if set {
        mode | flag
    } else {
        mode & !flag
    }
}

/// How a file is to be opened.
pub struct OpenOptions {
    access_mode: i32,
}

impl OpenOptions {
    /// The access mode that the options stand for.
    pub closed spec fn mode(&self) -> i32 {
        self.access_mode
    }

    /// Options with no bit set.
    pub fn new() -> (options: Self)
        ensures
            options.mode() == 0,
    {
        Self { access_mode: 0 }
    }

    /// Sets or clears the bits of reading. The platform has none, reading
    /// being the mode with no bit set, so the options stay as they are.
    pub fn read(&mut self, set: bool) -> (same: &mut Self)
        ensures
            same.mode() == with_flag(old(self).mode(), 0, set),
            same.mode() == old(self).mode(),
            *final(self) == *final(same),
    {
        let flag: i32 = o_rdonly();
        let mode: i32 = self.access_mode;
        assert(mode | 0i32 == mode) by (bit_vector);
        assert(mode & !0i32 == mode) by (bit_vector);
        if set {
            self.access_mode = mode | flag;
        } else {
            self.access_mode = mode & !flag;
        }
        self
    }

    /// Sets or clears the bit of writing.
    pub fn write(&mut self, set: bool) -> (same: &mut Self)
        ensures
            same.mode() == with_flag(old(self).mode(), 1, set),
            *final(self) == *final(same),
    {
        let flag: i32 = o_wronly();
        let mode: i32 = self.access_mode;
        if set {
            self.access_mode = mode | flag;
        } else {
            self.access_mode = mode & !flag;
        }
        self
    }

    /// The access mode, as the platform's `open` takes it.
    pub fn access_mode(&self) -> (mode: i32)
        ensures
            mode == self.mode(),
    {
        self.access_mode
    }
}

/// An open file, known by its descriptor.
pub struct File {
    fd: i32,
}

impl File {
    /// The descriptor.
    pub closed spec fn descriptor(&self) -> i32 {
        self.fd
    }

    /// What the platform's `open` returned, as a file: a negative number
    /// means that nothing was opened.
    pub fn from_raw(fd: i32) -> (r: Result<File, String>)
        ensures
            match r {
                Ok(file) => fd >= 0 && file.descriptor() == fd,
                Err(message) => fd < 0 && message@ == "Failed to open"@,
            },
    {
        if fd < 0 {
            Err(String::from_str("Failed to open"))
        } else {
            Ok(File { fd })
        }
    }

    /// The descriptor.
    pub fn fd(&self) -> (fd: i32)
        ensures
            fd == self.descriptor(),
    {
        self.fd
    }
}

/// What the platform's `read`, `write` or `fsync` returned, as the result of
/// a stream operation: a negative number means failure, with the reason in
/// `errno`, and any other is the count.
pub fn transfer_result(returned: isize, errno: i32) -> (r: Result<usize, Error>)
    ensures
        match r {
            Ok(n) => returned >= 0 && n == returned,
            Err(e) => returned < 0 && e@ == Repr::Os(errno),
        },
{
    if returned < 0 {
        Err(Error::from_raw_os_error(errno))
    } else {
        Ok(returned as usize)
    }
}

} // verus!
