//! What the server without a protocol makes of one read.

use crate::errors::ServerError;
use crate::text::{lossy_text, utf8_lossy};
use vstd::prelude::*;

verus! {

/// Non-protocol server.
pub struct CleanServer;

impl CleanServer {
    /// The text of one read. `read` bytes were read into `buffer`, which held
    /// spaces before; the text is that of the whole buffer. Nothing read is
    /// an empty line.
    pub fn read_string(read: usize, buffer: &[u8]) -> (r: Result<String, ServerError>)
        ensures
            match r {
                Ok(s) => read > 0 && s@ == utf8_lossy(buffer@),
                Err(e) => read == 0 && e is EmptyLine,
            },
    {
        if read == 0 {
            Err(ServerError::EmptyLine)
        } else {
            Ok(lossy_text(buffer))
        }
    }

    /// The bytes of one read: the first `read` bytes of `buffer`. Nothing
    /// read is an empty line.
    pub fn read_bytes(read: usize, buffer: &[u8]) -> (r: Result<Vec<u8>, ServerError>)
        requires
            read <= buffer@.len(),
        ensures
            match r {
                Ok(bytes) => read > 0 && bytes@ == buffer@.take(read as int),
                Err(e) => read == 0 && e is EmptyLine,
            },
    {
        if read == 0 {
            Err(ServerError::EmptyLine)
        } else {
            let part = vstd::slice::slice_subrange(buffer, 0, read);
            proof {
                assert(buffer@.subrange(0, read as int) =~= buffer@.take(read as int));
            }
            Ok(vstd::slice::slice_to_vec(part))
        }
    }
}

} // verus!
