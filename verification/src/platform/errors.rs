//! Win32 and NT error codes.
use vstd::prelude::*;

verus! {

/// The code that Win32 reports for success.
pub const NO_ERROR: u32 = 0;

/// The Win32 error reported when a buffer is too small.
pub const ERROR_INSUFFICIENT_BUFFER: u32 = 122;

/// The NTSTATUS reported when an information buffer has the wrong length
/// (0xC0000004).
pub const STATUS_INFO_LENGTH_MISMATCH: i32 = -1073741820i32;

/// The bit that an HRESULT made from an NTSTATUS carries (FACILITY_NT_BIT).
pub const FACILITY_NT_BIT: i32 = 0x1000_0000i32;

/// An error of the standard library's I/O, carried through unread.
#[verifier::external_type_specification]
#[verifier::external_body]
pub struct ExIoError(std::io::Error);

/// The calling thread's last OS error, as the standard library reads it (on
/// Windows, `GetLastError`).
///
/// Wraps `std::io::Error::last_os_error`. The error depends on what the
/// thread did before, so nothing is stated of it.
#[verifier::external_body]
fn last_os_error() -> (r: std::io::Error) {
    std::io::Error::last_os_error()
}

/// The OS error code that the error carries, if it carries one.
///
/// Wraps `std::io::Error::raw_os_error`. Which code an error carries is not
/// visible to the library, so nothing is stated of the result.
#[verifier::external_body]
fn raw_os_error(e: &std::io::Error) -> (r: Option<i32>) {
    e.raw_os_error()
}

/// The calling thread's last OS error code, if one is recorded.
fn os_last_error() -> (r: Option<i32>) {
    let e = last_os_error();
    raw_os_error(&e)
}

/// A Win32 error code.
#[derive(Clone, Copy, Debug, PartialEq, Eq, Structural)]
pub struct Win32Err(pub i32);

impl From<i32> for Win32Err {
    fn from(v: i32) -> (r: Win32Err) {
        Win32Err(v)
    }
}

impl vstd::std_specs::convert::FromSpecImpl<i32> for Win32Err {
    open spec fn obeys_from_spec() -> bool {
        true
    }

    open spec fn from_spec(v: i32) -> Win32Err {
        Win32Err(v)
    }
}

impl From<u32> for Win32Err {
    /// The code with the same bits.
    fn from(v: u32) -> (r: Win32Err) {
        Win32Err(v as i32)
    }
}

impl vstd::std_specs::convert::FromSpecImpl<u32> for Win32Err {
    open spec fn obeys_from_spec() -> bool {
        true
    }

    open spec fn from_spec(v: u32) -> Win32Err {
        Win32Err(v as i32)
    }
}

impl Win32Err {
    /// The error denotes success.
    pub fn is_success(&self) -> (r: bool)
        ensures
            r == (self.0 == 0),
    {
        self.0 == 0
    }

    /// `Ok` for the success code, the error otherwise.
    pub fn result_of(code: i32) -> (r: Result<(), Win32Err>)
        ensures
            r == (if code == 0 {
                Ok::<(), Win32Err>(())
            } else {
                Err(Win32Err(code))
            }),
    {
        let err = Win32Err(code);
        if err.is_success() {
            Ok(())
        } else {
            Err(err)
        }
    }

    /// The error that an OS error code read from the thread stands for:
    /// that code, or success when none is recorded.
    pub fn from_os_code(code: Option<i32>) -> (r: Win32Err)
        ensures
            r == (match code {
                Some(c) => Win32Err(c),
                None => Win32Err(0),
            }),
    {
        match code {
            Some(c) => Win32Err(c),
            None => Win32Err(0),
        }
    }

    /// The calling thread's last error (success when none is recorded).
    ///
    /// The thread's last error is read and left as it is: it is not reset to
    /// success afterwards, since resetting it takes `SetLastError`, which the
    /// standard library does not offer.
    pub fn last_err() -> (r: Win32Err) {
        Win32Err::from_os_code(os_last_error())
    }

    /// `Ok` when the calling thread's last error is success, the error
    /// otherwise. The thread's last error is not reset (see
    /// [`Win32Err::last_err`]).
    pub fn last_result() -> (r: Result<(), Win32Err>)
        ensures
            r matches Err(e) ==> e.0 != 0,
    {
        let err = Win32Err::last_err();
        Win32Err::result_of(err.0)
    }
}

/// A Win32 error code of the newer API.
#[derive(Clone, Copy, Debug, PartialEq, Eq, Structural)]
pub struct Win32Error(pub u32);

impl Win32Error {
    /// `Ok` for `NO_ERROR`, the error otherwise.
    pub fn result_of(code: u32) -> (r: Result<(), Win32Error>)
        ensures
            r == (if code == NO_ERROR {
                Ok::<(), Win32Error>(())
            } else {
                Err(Win32Error(code))
            }),
    {
        if code == NO_ERROR {
            Ok(())
        } else {
            Err(Win32Error(code))
        }
    }

    /// The error that an OS error code read from the thread stands for:
    /// the code with the same bits, or `NO_ERROR` when none is recorded.
    pub fn from_os_code(code: Option<i32>) -> (r: Win32Error)
        ensures
            r == (match code {
                Some(c) => Win32Error(c as u32),
                None => Win32Error(NO_ERROR),
            }),
    {
        match code {
            Some(c) => Win32Error(c as u32),
            None => Win32Error(NO_ERROR),
        }
    }

    /// The calling thread's last error (`NO_ERROR` when none is recorded).
    pub fn last_err() -> (r: Win32Error) {
        Win32Error::from_os_code(os_last_error())
    }

    /// `Ok` when the calling thread's last error is `NO_ERROR`, the error
    /// otherwise.
    pub fn last_result() -> (r: Result<(), Win32Error>)
        ensures
            r matches Err(e) ==> e.0 != NO_ERROR,
    {
        let err = Win32Error::last_err();
        Win32Error::result_of(err.0)
    }

    /// The buffer passed to the call was too small.
    pub fn insufficient_size(&self) -> (r: bool)
        ensures
            r == (self.0 == ERROR_INSUFFICIENT_BUFFER),
    {
        self.0 == ERROR_INSUFFICIENT_BUFFER
    }
}

/// An NTSTATUS error code.
#[derive(Clone, Copy, Debug, PartialEq, Eq, Structural)]
pub struct NtError(pub i32);

impl NtError {
    /// The buffer passed to the call had the wrong length.
    pub fn insufficient_size(&self) -> (r: bool)
        ensures
            r == (self.0 == STATUS_INFO_LENGTH_MISMATCH),
    {
        self.0 == STATUS_INFO_LENGTH_MISMATCH
    }

    /// The NTSTATUS behind an HRESULT code made from it: the HRESULT carries
    /// the facility bit, which the status does not.
    pub fn from_hresult(code: i32) -> (r: NtError)
        ensures
            r.0 == code & !FACILITY_NT_BIT,
    {
        NtError(code & !FACILITY_NT_BIT)
    }
}

/// An NTSTATUS without the facility bit comes back from the HRESULT made
/// from it.
pub proof fn law_nt_status_hresult_roundtrip(status: i32)
    requires
        status & FACILITY_NT_BIT == 0,
    ensures
        (status | FACILITY_NT_BIT) & !FACILITY_NT_BIT == status,
{
    assert((status | 0x1000_0000i32) & !0x1000_0000i32 == status) by (bit_vector)
        requires
            status & 0x1000_0000i32 == 0,
    ;
}

} // verus!
