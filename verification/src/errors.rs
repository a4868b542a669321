//! The toolkit's error kinds, shared by the class-file decoder and the JDWP
//! client core.

use vstd::prelude::*;

verus! {

/// Every failure the toolkit reports. Transport failures carry a message;
/// structural decode failures carry a message; a nonzero JDWP reply error
/// code is preserved as it came off the wire.
#[derive(Debug, Clone, PartialEq, Eq)]
pub enum Error {
    Io(String),
    Parse(String),
    IdSizesUnknown,
    IdSizesTruncated,
    Timeout,
    HandshakeMismatch,
    ProtocolError(u16),
}

} // verus!
