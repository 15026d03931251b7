//! Buffered reading and writing over byte streams, with a portable
//! classification of the failures that the streams report.

pub mod buffered;
pub mod error;
pub mod file;
pub mod laws;
pub mod record;
pub mod traits;

pub use buffered::{BufReader, BufWriter, ReaderModel, WriterModel, DEFAULT_BUFF_SIZE};
pub use error::{decode_error_kind, Cause, Error, ErrorKind, OsCodes, Repr};
pub use file::{transfer_result, File, OpenOptions};
pub use record::{ReadCall, WriteCall};
pub use traits::{Read, Write};
