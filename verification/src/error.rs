//! Portable failure categories, the error value that every stream operation
//! returns, and the classifier from platform error codes to categories.

use vstd::prelude::*;
use vstd::std_specs::convert::FromSpecImpl;
use vstd::string::StringExecFns;

verus! {

/// A portable category of failure, independent of the platform's numbering.
///
/// The variants are ordered as declared.
#[derive(Clone, Copy, Debug, PartialEq, Eq, PartialOrd, Ord, Hash, Structural)]
pub enum ErrorKind {
    NotFound,
    PermissionDenied,
    ConnectionRefused,
    ConnectionReset,
    ConnectionAborted,
    NotConnected,
    AddrInUse,
    AddrNotAvailable,
    BrokenPipe,
    AlreadyExists,
    WouldBlock,
    InvalidInput,
    InvalidData,
    TimedOut,
    WriteZero,
    Interrupted,
    UnexpectedEof,
    Other,
}

impl ErrorKind {
    /// The variant's name, as it is written in the declaration.
    pub open spec fn spec_name(self) -> Seq<char> {
        match self {
            ErrorKind::NotFound => "NotFound"@,
            ErrorKind::PermissionDenied => "PermissionDenied"@,
            ErrorKind::ConnectionRefused => "ConnectionRefused"@,
            ErrorKind::ConnectionReset => "ConnectionReset"@,
            ErrorKind::ConnectionAborted => "ConnectionAborted"@,
            ErrorKind::NotConnected => "NotConnected"@,
            ErrorKind::AddrInUse => "AddrInUse"@,
            ErrorKind::AddrNotAvailable => "AddrNotAvailable"@,
            ErrorKind::BrokenPipe => "BrokenPipe"@,
            ErrorKind::AlreadyExists => "AlreadyExists"@,
            ErrorKind::WouldBlock => "WouldBlock"@,
            ErrorKind::InvalidInput => "InvalidInput"@,
            ErrorKind::InvalidData => "InvalidData"@,
            ErrorKind::TimedOut => "TimedOut"@,
            ErrorKind::WriteZero => "WriteZero"@,
            ErrorKind::Interrupted => "Interrupted"@,
            ErrorKind::UnexpectedEof => "UnexpectedEof"@,
            ErrorKind::Other => "Other"@,
        }
    }

    /// The variant's name.
    pub fn name(self) -> (s: &'static str)
        ensures
            s@ == self.spec_name(),
    {
        match self {
            ErrorKind::NotFound => "NotFound",
            ErrorKind::PermissionDenied => "PermissionDenied",
            ErrorKind::ConnectionRefused => "ConnectionRefused",
            ErrorKind::ConnectionReset => "ConnectionReset",
            ErrorKind::ConnectionAborted => "ConnectionAborted",
            ErrorKind::NotConnected => "NotConnected",
            ErrorKind::AddrInUse => "AddrInUse",
            ErrorKind::AddrNotAvailable => "AddrNotAvailable",
            ErrorKind::BrokenPipe => "BrokenPipe",
            ErrorKind::AlreadyExists => "AlreadyExists",
            ErrorKind::WouldBlock => "WouldBlock",
            ErrorKind::InvalidInput => "InvalidInput",
            ErrorKind::InvalidData => "InvalidData",
            ErrorKind::TimedOut => "TimedOut",
            ErrorKind::WriteZero => "WriteZero",
            ErrorKind::Interrupted => "Interrupted",
            ErrorKind::UnexpectedEof => "UnexpectedEof",
            ErrorKind::Other => "Other",
        }
    }
}

/// The numbers that a platform gives to the conditions the classifier knows.
#[derive(Clone, Copy, Debug)]
pub struct OsCodes {
    pub connection_refused: i32,
    pub connection_reset: i32,
    pub not_permitted: i32,
    pub access_denied: i32,
    pub broken_pipe: i32,
    pub not_connected: i32,
    pub would_block: i32,
    pub not_found: i32,
}

/// `libc::ECONNREFUSED`. On Linux libc defines it as 111, except on MIPS
/// (146) and on SPARC (61).
#[verifier::external_body]
fn econnrefused() -> (c: i32)
    ensures
        c == 111 || c == 146 || c == 61,
{
    libc::ECONNREFUSED
}

/// `libc::ECONNRESET`. On Linux libc defines it as 104, except on MIPS (131)
/// and on SPARC (54).
#[verifier::external_body]
fn econnreset() -> (c: i32)
    ensures
        c == 104 || c == 131 || c == 54,
{
    libc::ECONNRESET
}

/// `libc::EPERM`, which libc defines as 1 on every Linux target.
#[verifier::external_body]
fn eperm() -> (c: i32)
    ensures
        c == 1,
{
    libc::EPERM
}

/// `libc::EACCES`, which libc defines as 13 on every Linux target.
#[verifier::external_body]
fn eacces() -> (c: i32)
    ensures
        c == 13,
{
    libc::EACCES
}

/// `libc::EPIPE`, which libc defines as 32 on every Linux target.
#[verifier::external_body]
fn epipe() -> (c: i32)
    ensures
        c == 32,
{
    libc::EPIPE
}

/// `libc::ENOTCONN`. On Linux libc defines it as 107, except on MIPS (134)
/// and on SPARC (57).
#[verifier::external_body]
fn enotconn() -> (c: i32)
    ensures
        c == 107 || c == 134 || c == 57,
{
    libc::ENOTCONN
}

/// `libc::EWOULDBLOCK`, which libc defines as `EAGAIN`, 11, on every Linux
/// target.
#[verifier::external_body]
fn ewouldblock() -> (c: i32)
    ensures
        c == 11,
{
    libc::EWOULDBLOCK
}

/// `libc::ENOENT`, which libc defines as 2 on every Linux target.
#[verifier::external_body]
fn enoent() -> (c: i32)
    ensures
        c == 2,
{
    libc::ENOENT
}

impl OsCodes {
    /// The category that this table gives a code: the table is read from its
    /// first entry down, and a code that no entry holds is `Other`.
    pub open spec fn kind_of(self, errno: i32) -> ErrorKind {
        if errno == self.connection_refused {
            ErrorKind::ConnectionRefused
        } else if errno == self.connection_reset {
            ErrorKind::ConnectionReset
        } else if errno == self.not_permitted || errno == self.access_denied {
            ErrorKind::PermissionDenied
        } else if errno == self.broken_pipe {
            ErrorKind::BrokenPipe
        } else if errno == self.not_connected {
            ErrorKind::NotConnected
        } else if errno == self.would_block {
            ErrorKind::WouldBlock
        } else if errno == self.not_found {
            ErrorKind::NotFound
        } else {
            ErrorKind::Other
        }
    }

    /// What holds of the table on every Linux target: five codes are the
    /// same everywhere, three depend on the processor family.
    pub open spec fn is_linux(self) -> bool {
        &&& self.not_permitted == 1
        &&& self.not_found == 2
        &&& self.would_block == 11
        &&& self.access_denied == 13
        &&& self.broken_pipe == 32
        &&& (self.connection_refused == 111 || self.connection_refused == 146
            || self.connection_refused == 61)
        &&& (self.connection_reset == 104 || self.connection_reset == 131 || self.connection_reset
            == 54)
        &&& (self.not_connected == 107 || self.not_connected == 134 || self.not_connected == 57)
    }

    /// The table of the platform that the library was built for.
    pub fn native() -> (t: OsCodes)
        ensures
            t.is_linux(),
    {
        OsCodes {
            connection_refused: econnrefused(),
            connection_reset: econnreset(),
            not_permitted: eperm(),
            access_denied: eacces(),
            broken_pipe: epipe(),
            not_connected: enotconn(),
            would_block: ewouldblock(),
            not_found: enoent(),
        }
    }

    /// Classifies a platform error code by this table.
    pub fn classify(&self, errno: i32) -> (k: ErrorKind)
        ensures
            k == self.kind_of(errno),
    {
        if errno == self.connection_refused {
            ErrorKind::ConnectionRefused
        } else if errno == self.connection_reset {
            ErrorKind::ConnectionReset
        } else if errno == self.not_permitted || errno == self.access_denied {
            ErrorKind::PermissionDenied
        } else if errno == self.broken_pipe {
            ErrorKind::BrokenPipe
        } else if errno == self.not_connected {
            ErrorKind::NotConnected
        } else if errno == self.would_block {
            ErrorKind::WouldBlock
        } else if errno == self.not_found {
            ErrorKind::NotFound
        } else {
            ErrorKind::Other
        }
    }
}

/// Whether `k` is the category of `errno` under the table of some Linux
/// target.
pub open spec fn classifies(errno: i32, k: ErrorKind) -> bool {
    exists|t: OsCodes| #[trigger] t.is_linux() && k == t.kind_of(errno)
}

/// The category of the codes that mean the same on every Linux target.
pub open spec fn fixed_kind(errno: i32) -> Option<ErrorKind> {
    if errno == 1 || errno == 13 {
        Some(ErrorKind::PermissionDenied)
    } else if errno == 2 {
        Some(ErrorKind::NotFound)
    } else if errno == 11 {
        Some(ErrorKind::WouldBlock)
    } else if errno == 32 {
        Some(ErrorKind::BrokenPipe)
    } else {
        None
    }
}

/// Whether some Linux target uses `errno` for a refused or reset connection,
/// or for an endpoint that is not connected.
pub open spec fn varies(errno: i32) -> bool {
    ||| errno == 111 || errno == 146 || errno == 61
    ||| errno == 104 || errno == 131 || errno == 54
    ||| errno == 107 || errno == 134 || errno == 57
}

/// Classifies a platform error code by the table of the platform that the
/// library was built for.
pub fn decode_error_kind(errno: i32) -> (k: ErrorKind)
    ensures
        classifies(errno, k),
        fixed_kind(errno) matches Some(fixed) ==> k == fixed,
        fixed_kind(errno) is None && !varies(errno) ==> k == ErrorKind::Other,
{
    let table = OsCodes::native();
    table.classify(errno)
}

/// What an error was caused by: a message, and the cause of that cause where
/// one is known.
#[derive(Debug)]
pub struct Cause {
    message: String,
    source: Option<Box<Cause>>,
}

impl Cause {
    /// The message.
    pub closed spec fn text(&self) -> Seq<char> {
        self.message@
    }

    /// The cause of this cause.
    pub closed spec fn origin(&self) -> Option<Cause> {
        match self.source {
            Some(inner) => Some(*inner),
            None => None,
        }
    }

    /// A cause with a message and nothing behind it.
    pub fn new(message: &str) -> (c: Cause)
        ensures
            c.text() == message@,
            c.origin() is None,
    {
        Cause { message: String::from_str(message), source: None }
    }

    /// The same cause, with `source` behind it in place of what was there.
    pub fn caused_by(self, source: Cause) -> (c: Cause)
        ensures
            c.text() == self.text(),
            c.origin() == Some(source),
    {
        Cause { message: self.message, source: Some(Box::new(source)) }
    }

    /// The message.
    pub fn message(&self) -> (m: &str)
        ensures
            m@ == self.text(),
    {
        self.message.as_str()
    }

    /// The cause of this cause, where one is known.
    pub fn source(&self) -> (s: Option<&Cause>)
        ensures
            match s {
                Some(inner) => self.origin() == Some(*inner),
                None => self.origin() is None,
            },
    {
        match &self.source {
            Some(inner) => Some(&**inner),
            None => None,
        }
    }
}

/// `From::from` of a type for itself, std's reflexive conversion: it hands
/// back the value that it was given.
pub assume_specification<A>[ <A as std::convert::From<A>>::from ](value: A) -> (same: A)
    ensures
        same == value,
;

impl From<&str> for Cause {
    fn from(message: &str) -> (c: Cause)
        ensures
            c.text() == message@,
            c.origin() is None,
    {
        Cause::new(message)
    }
}

impl FromSpecImpl<&str> for Cause {
    open spec fn obeys_from_spec() -> bool {
        false
    }

    open spec fn from_spec(message: &str) -> Cause {
        arbitrary()
    }
}

/// The three shapes of an error.
#[derive(Debug)]
pub enum Repr {
    /// A platform error code, classified when the kind is asked for.
    Os(i32),
    /// A category and nothing else.
    Simple(ErrorKind),
    /// A category with what caused the failure.
    Custom(ErrorKind, Cause),
}

/// The error of a stream operation. Its view is its representation.
#[derive(Debug)]
pub struct Error {
    repr: Repr,
}

impl View for Error {
    type V = Repr;

    closed spec fn view(&self) -> Repr {
        self.repr
    }
}

/// The digit `d` as a character.
pub open spec fn digit(d: nat) -> char
    recommends
        d < 10,
{
    if d == 0 {
        '0'
    } else if d == 1 {
        '1'
    } else if d == 2 {
        '2'
    } else if d == 3 {
        '3'
    } else if d == 4 {
        '4'
    } else if d == 5 {
        '5'
    } else if d == 6 {
        '6'
    } else if d == 7 {
        '7'
    } else if d == 8 {
        '8'
    } else {
        '9'
    }
}

/// The decimal digits of `n`, most significant first, without leading zeros.
pub open spec fn digits(n: nat) -> Seq<char>
    decreases n,
{
    if n < 10 {
        seq![digit(n)]
    } else {
        digits(n / 10).push(digit(n % 10))
    }
}

/// `i` in decimal, with a minus sign in front of a negative number.
pub open spec fn decimal(i: int) -> Seq<char> {
    if i < 0 {
        seq!['-'] + digits((-i) as nat)
    } else {
        digits(i as nat)
    }
}

fn digit_str(d: u32) -> (s: &'static str)
    requires
        d < 10,
    ensures
        s@ == seq![digit(d as nat)],
{
    proof {
        reveal_strlit("0");
        reveal_strlit("1");
        reveal_strlit("2");
        reveal_strlit("3");
        reveal_strlit("4");
        reveal_strlit("5");
        reveal_strlit("6");
        reveal_strlit("7");
        reveal_strlit("8");
        reveal_strlit("9");
    }
    let s = if d == 0 {
        "0"
    } else if d == 1 {
        "1"
    } else if d == 2 {
        "2"
    } else if d == 3 {
        "3"
    } else if d == 4 {
        "4"
    } else if d == 5 {
        "5"
    } else if d == 6 {
        "6"
    } else if d == 7 {
        "7"
    } else if d == 8 {
        "8"
    } else {
        "9"
    };
    assert(s@ =~= seq![digit(d as nat)]);
    s
}

fn append_digits(out: &mut String, n: u32)
    ensures
        final(out)@ == old(out)@ + digits(n as nat),
    decreases n,
{
    if n >= 10 {
        append_digits(out, n / 10);
    }
    out.append(digit_str(n % 10));
    assert(out@ =~= old(out)@ + digits(n as nat));
}

impl Error {
    /// The error that has the given representation.
    pub closed spec fn of(repr: Repr) -> Error {
        Error { repr }
    }

    /// What `to_string` renders.
    pub open spec fn rendering(self) -> Seq<char> {
        match self@ {
            Repr::Os(code) => "os error "@ + decimal(code as int),
            Repr::Simple(kind) => kind.spec_name(),
            Repr::Custom(_, cause) => cause.text(),
        }
    }

    /// Whether `k` can be the kind of this error: the category it carries, or
    /// for a platform code the category that the classifier gives it.
    pub open spec fn has_kind(self, k: ErrorKind) -> bool {
        match self@ {
            Repr::Os(code) => {
                &&& classifies(code, k)
                &&& fixed_kind(code) matches Some(fixed) ==> k == fixed
                &&& fixed_kind(code) is None && !varies(code) ==> k == ErrorKind::Other
            },
            Repr::Simple(kind) => k == kind,
            Repr::Custom(kind, _) => k == kind,
        }
    }

    /// An error of the given kind with what caused it: the cause is what
    /// `error` converts into.
    pub fn new<E: Into<Cause>>(kind: ErrorKind, error: E) -> (e: Error)
        ensures
            e@ matches Repr::Custom(k, cause) && k == kind && call_ensures(
                E::into,
                (error,),
                cause,
            ),
    {
        Error { repr: Repr::Custom(kind, error.into()) }
    }

    /// An error that holds a platform error code.
    pub fn from_raw_os_error(code: i32) -> (e: Error)
        ensures
            e@ == Repr::Os(code),
    {
        Error { repr: Repr::Os(code) }
    }

    /// The error's category. A platform code is classified anew at each call.
    pub fn kind(&self) -> (k: ErrorKind)
        ensures
            self.has_kind(k),
    {
        match &self.repr {
            Repr::Os(code) => decode_error_kind(*code),
            Repr::Simple(kind) => *kind,
            Repr::Custom(kind, _) => *kind,
        }
    }

    /// The platform error code, where the error holds one.
    pub fn raw_os_error(&self) -> (code: Option<i32>)
        ensures
            code == (match self@ {
                Repr::Os(c) => Some(c),
                _ => None,
            }),
    {
        match &self.repr {
            Repr::Os(code) => Some(*code),
            _ => None,
        }
    }

    /// What caused the error, where it was made with a cause.
    pub fn source(&self) -> (s: Option<&Cause>)
        ensures
            match s {
                Some(cause) => self@ matches Repr::Custom(_, c) && c == *cause,
                None => !(self@ is Custom),
            },
    {
        match &self.repr {
            Repr::Custom(_, cause) => Some(cause),
            _ => None,
        }
    }

    /// The error in words: `os error` and the code in decimal, the kind's
    /// name, or the cause's own message.
    pub fn to_string(&self) -> (s: String)
        ensures
            s@ == self.rendering(),
    {
        match &self.repr {
            Repr::Os(code) => {
                let mut out = String::from_str("os error ");
                let wide: i64 = *code as i64;
                if wide < 0 {
                    out.append("-");
                    proof {
                        reveal_strlit("-");
                    }
                    append_digits(&mut out, (-wide) as u32);
                    assert(out@ =~= "os error "@ + decimal(*code as int));
                } else {
                    append_digits(&mut out, wide as u32);
                }
                out
            },
            Repr::Simple(kind) => String::from_str(kind.name()),
            Repr::Custom(_, cause) => String::from_str(cause.message()),
        }
    }
}

impl From<ErrorKind> for Error {
    fn from(kind: ErrorKind) -> (e: Error)
        ensures
            e@ == Repr::Simple(kind),
    {
        Error { repr: Repr::Simple(kind) }
    }
}

impl FromSpecImpl<ErrorKind> for Error {
    open spec fn obeys_from_spec() -> bool {
        true
    }

    open spec fn from_spec(kind: ErrorKind) -> Error {
        Error::of(Repr::Simple(kind))
    }
}

} // verus!
