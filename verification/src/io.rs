//! Decision rules of the sequential byte-stream adapters.
//!
//! A raw device transfer handle answers each read or write call with a
//! native status code and a transferred-byte count.  The calls themselves
//! are remote I/O and live outside this library; the rules below decide,
//! from those two plain values, what one call meant.  Transfer is purely
//! sequential: no seek is modeled.

use vstd::prelude::*;
use crate::error::WinError;

verus! {

/// The native status code that reports plain success.
pub const STATUS_OK: i32 = 0;

/// The native status code with which a read reports that the end of the
/// data was reached.
pub const STATUS_END_OF_DATA: i32 = 1;

/// A read request must fit the native call's 32-bit byte count; a larger
/// buffer cannot be handed down in one call.
pub fn transfer_request_size(buffer_len: usize) -> (r: Option<u32>)
    ensures
        r is Some <==> buffer_len <= u32::MAX,
        r is Some ==> r->0 == buffer_len as u32,
{
    if buffer_len <= u32::MAX as usize {
        Some(buffer_len as u32)
    } else {
        None
    }
}

/// What one raw read call answered.
///
/// Both the plain-success status and the end-of-data status are successful
/// reads: a short or zero count signals natural end of data, not an error.
/// Any other status is a genuine transport failure, surfaced verbatim.
pub fn read_outcome(hresult: i32, bytes_read: u32) -> (r: Result<u32, WinError>)
    ensures
        r == if hresult == STATUS_OK || hresult == STATUS_END_OF_DATA {
            Result::<u32, WinError>::Ok(bytes_read)
        } else {
            Result::<u32, WinError>::Err(WinError { hresult })
        },
{
    if hresult == STATUS_OK || hresult == STATUS_END_OF_DATA {
        Ok(bytes_read)
    } else {
        Err(WinError { hresult })
    }
}

/// What one raw write call answered.  Only the plain-success status counts
/// as a successful write; anything else is a transport failure.
pub fn write_outcome(hresult: i32, bytes_written: u32) -> (r: Result<u32, WinError>)
    ensures
        r == if hresult == STATUS_OK {
            Result::<u32, WinError>::Ok(bytes_written)
        } else {
            Result::<u32, WinError>::Err(WinError { hresult })
        },
{
    if hresult == STATUS_OK {
        Ok(bytes_written)
    } else {
        Err(WinError { hresult })
    }
}

} // verus!
