//! Result-value decoding shared by the oneshot and multishot handles.
//!
//! A kernel completion carries a 32-bit signed value: non-negative means
//! success (a byte count, a file descriptor, ...), negative means an OS
//! error whose code is the magnitude.

use vstd::prelude::*;

verus! {

/// Poll outcome of a handle: either the operation's result is available,
/// or the caller should park and wait for a wake token.
pub enum Poll<T> {
    Ready(T),
    Pending,
}

/// An OS error reported by the kernel, identified by its error code.
#[derive(Clone, Copy, Debug, PartialEq, Eq, Structural)]
pub struct OsError {
    pub code: u32,
}

/// What [`reactor_value_to_result`] returns for a raw completion value.
pub open spec fn value_to_result(v: i32) -> Result<i32, OsError> {
    if v >= 0 {
        Ok(v)
    } else {
        Err(OsError { code: (-(v as int)) as u32 })
    }
}

/// Decode a raw completion value: `v >= 0` is success with value `v`,
/// `v < 0` is the OS error whose code is the magnitude of `v`.
pub fn reactor_value_to_result(v: i32) -> (r: Result<i32, OsError>)
    ensures
        r == value_to_result(v),
{
    if v >= 0 {
        Ok(v)
    } else {
        let wide: i64 = -(v as i64);
        proof {
            assert(0 < wide <= 0x8000_0000i64);
        }
        Err(OsError { code: wide as u32 })
    }
}

} // verus!
