//! Status codes: the 32-bit results that every service and codec operation
//! reports. The high 16 bits hold severity and code, the low 16 bits
//! optional flags.

use vstd::prelude::*;

verus! {

/// A numeric identifier of an error or condition.
pub type StatusCode = u32;

pub const GOOD: StatusCode = 0;

pub const BAD_UNEXPECTED_ERROR: StatusCode = 0x8001_0000;

pub const BAD_DECODING_ERROR: StatusCode = 0x8007_0000;

pub const BAD_ENCODING_LIMITS_EXCEEDED: StatusCode = 0x8008_0000;

pub const BAD_SERVICE_UNSUPPORTED: StatusCode = 0x800B_0000;

pub const BAD_NOTHING_TO_DO: StatusCode = 0x800F_0000;

pub const BAD_SECURITY_CHECKS_FAILED: StatusCode = 0x8013_0000;

pub const BAD_IDENTITY_TOKEN_REJECTED: StatusCode = 0x8021_0000;

pub const BAD_SESSION_ID_INVALID: StatusCode = 0x8025_0000;

pub const BAD_SESSION_NOT_ACTIVATED: StatusCode = 0x8027_0000;

pub const BAD_NODE_ID_INVALID: StatusCode = 0x8033_0000;

pub const BAD_NODE_ID_UNKNOWN: StatusCode = 0x8034_0000;

pub const BAD_SECURITY_POLICY_REJECTED: StatusCode = 0x8055_0000;

pub const BAD_NODE_ID_EXISTS: StatusCode = 0x805E_0000;

pub const BAD_APPLICATION_SIGNATURE_INVALID: StatusCode = 0x8058_0000;

pub const BAD_VIEW_ID_UNKNOWN: StatusCode = 0x806B_0000;

pub const BAD_NO_MATCH: StatusCode = 0x806F_0000;

pub const BAD_SECURE_CHANNEL_TOKEN_UNKNOWN: StatusCode = 0x8087_0000;

/// True when the severity bits of `code` say that the operation succeeded.
pub open spec fn spec_is_good(code: StatusCode) -> bool {
    code < 0x4000_0000
}

#[verifier::when_used_as_spec(spec_is_good)]
pub fn is_good(code: StatusCode) -> (r: bool)
    ensures
        r == spec_is_good(code),
{
    code < 0x4000_0000
}

} // verus!
