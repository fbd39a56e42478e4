use vstd::prelude::*;

verus! {

/// Win32 error: the system cannot find the file specified.
pub const ERROR_FILE_NOT_FOUND: u32 = 2;

/// Win32 error: not enough memory.
pub const ERROR_OUTOFMEMORY: u32 = 14;

/// Win32 error: the data area passed is too small.
pub const ERROR_INSUFFICIENT_BUFFER: u32 = 122;

/// Win32 error: overlapped I/O event is not in a signaled state.
pub const ERROR_IO_INCOMPLETE: u32 = 996;

/// NT status: success.
pub const STATUS_SUCCESS: i32 = 0;

/// NT status: the file cannot be deleted (used to veto an operation).
pub const STATUS_CANNOT_DELETE: i32 = -1073741535;

/// The HRESULT that wraps a Win32 error code: codes that read as zero or
/// negative pass through, others get the Win32 facility and the failure bit.
pub open spec fn win32_hresult(code: u32) -> i32 {
    if code as i32 <= 0 {
        code as i32
    } else {
        ((code & 0xFFFF) | 0x70000 | 0x8000_0000) as i32
    }
}

/// The HRESULT that wraps an NT status: the status with the customer bit.
pub open spec fn ntstatus_hresult(status: i32) -> i32 {
    status | 0x1000_0000
}

/// The HRESULT of a failed I/O: its OS error code, or the generic
/// "incomplete I/O" code where there is none.
pub open spec fn io_failure_hresult(raw_os_error: Option<i32>) -> i32 {
    match raw_os_error {
        Some(code) => win32_hresult(code as u32),
        None => win32_hresult(ERROR_IO_INCOMPLETE),
    }
}

pub fn hresult_from_win32(code: u32) -> (r: i32)
    ensures
        r == win32_hresult(code),
{
    if code as i32 <= 0 {
        code as i32
    } else {
        ((code & 0xFFFF) | 0x70000 | 0x8000_0000) as i32
    }
}

pub fn ntstatus_to_hresult(status: i32) -> (r: i32)
    ensures
        r == ntstatus_hresult(status),
{
    status | 0x1000_0000
}

/// Maps a failed I/O, given by its OS error code if it has one, to the
/// status reported to the host.
pub fn io_result_to_hresult(raw_os_error: Option<i32>) -> (r: i32)
    ensures
        r == io_failure_hresult(raw_os_error),
{
    match raw_os_error {
        Some(code) => hresult_from_win32(code as u32),
        None => hresult_from_win32(ERROR_IO_INCOMPLETE),
    }
}

/// Every nonzero Win32 error maps to a failure HRESULT (a negative one), so
/// no error can be mistaken for success.
pub proof fn lemma_win32_error_is_failure(code: u32)
    requires
        code != 0,
    ensures
        win32_hresult(code) < 0,
{
    assert(code != 0 ==> (if code as i32 <= 0 {
        code as i32
    } else {
        ((code & 0xFFFF) | 0x70000 | 0x8000_0000) as i32
    }) < 0) by (bit_vector);
}

} // verus!
