//! Error taxonomy of the driver.
//!
//! Vendor SDK calls answer with an integer status code; code 0 means
//! success and every other code is classified into a small set of named
//! kinds.  Client-visible failures (unknown property, read-only property,
//! invalid value, hardware trouble) are carried by [`DeviceError`].

use vstd::prelude::*;

verus! {

/// Classification of a nonzero vendor status code.
#[derive(Clone, Copy, Debug, PartialEq, Eq, Structural)]
pub enum HwErrorKind {
    /// No device at the given index, or the index is out of range.
    InvalidIndex,
    /// The device id is not one the SDK knows.
    InvalidId,
    /// The device was never opened or has been closed.
    Closed,
    /// The device disappeared (unplugged) since it was opened.
    Removed,
    /// The operation did not finish in time.
    Timeout,
    /// The device is busy: an exposure or a video mode is in progress,
    /// or commands arrived in the wrong order.
    Busy,
    /// A parameter (control type, size, image type, position) was not
    /// acceptable to the device.
    InvalidParameter,
    /// Any other failure the SDK reports.
    General,
}

/// A failure visible to a client of the driver.
#[derive(Clone, Copy, Debug, PartialEq, Eq, Structural)]
pub enum DeviceError {
    /// The named property does not exist on this device.
    UnknownProperty,
    /// The property exists but its permission forbids writing.
    ReadOnlyProperty,
    /// The written value fails type or bounds validation.
    InvalidValue,
    /// The hardware refused or failed the operation.
    Hardware(HwErrorKind),
}

/// How each vendor status code is classified; code 0 is success.
pub open spec fn spec_classify_code(code: int) -> Option<HwErrorKind> {
    if code == 0 {
        None
    } else if code == 1 {
        Some(HwErrorKind::InvalidIndex)
    } else if code == 2 {
        Some(HwErrorKind::InvalidId)
    } else if code == 4 {
        Some(HwErrorKind::Closed)
    } else if code == 5 {
        Some(HwErrorKind::Removed)
    } else if code == 11 {
        Some(HwErrorKind::Timeout)
    } else if code == 12 || code == 14 || code == 15 {
        Some(HwErrorKind::Busy)
    } else if code == 3 || code == 6 || code == 7 || code == 8 || code == 9 || code == 10
        || code == 13 || code == 17 {
        Some(HwErrorKind::InvalidParameter)
    } else {
        Some(HwErrorKind::General)
    }
}

/// The client-visible error a nonzero vendor status code becomes.
pub open spec fn spec_hw_error(code: int) -> DeviceError {
    match spec_classify_code(code) {
        Some(kind) => DeviceError::Hardware(kind),
        None => DeviceError::Hardware(HwErrorKind::General),
    }
}

/// Classify a vendor status code: `None` for success (code 0), otherwise
/// the kind of failure.  Raw codes are never shown to callers; only this
/// classification is.
pub fn check_error_code(code: i32) -> (r: Option<HwErrorKind>)
    ensures
        r == spec_classify_code(code as int),
        r is None <==> code == 0,
{
    match code {
        0 => None,
        1 => Some(HwErrorKind::InvalidIndex),
        2 => Some(HwErrorKind::InvalidId),
        4 => Some(HwErrorKind::Closed),
        5 => Some(HwErrorKind::Removed),
        11 => Some(HwErrorKind::Timeout),
        12 | 14 | 15 => Some(HwErrorKind::Busy),
        3 | 6 | 7 | 8 | 9 | 10 | 13 | 17 => Some(HwErrorKind::InvalidParameter),
        _ => Some(HwErrorKind::General),
    }
}

impl HwErrorKind {
    /// A short name for the kind, for log lines and client messages.
    pub fn name(&self) -> (r: &'static str)
        ensures
            r@ == self.spec_name(),
    {
        proof {
            reveal_strlit("INVALID_INDEX");
            reveal_strlit("INVALID_ID");
            reveal_strlit("CLOSED");
            reveal_strlit("REMOVED");
            reveal_strlit("TIMEOUT");
            reveal_strlit("BUSY");
            reveal_strlit("INVALID_PARAMETER");
            reveal_strlit("GENERAL_ERROR");
        }
        match self {
            HwErrorKind::InvalidIndex => "INVALID_INDEX",
            HwErrorKind::InvalidId => "INVALID_ID",
            HwErrorKind::Closed => "CLOSED",
            HwErrorKind::Removed => "REMOVED",
            HwErrorKind::Timeout => "TIMEOUT",
            HwErrorKind::Busy => "BUSY",
            HwErrorKind::InvalidParameter => "INVALID_PARAMETER",
            HwErrorKind::General => "GENERAL_ERROR",
        }
    }

    /// The name each kind carries, as a sequence of characters.
    pub open spec fn spec_name(self) -> Seq<char> {
        match self {
            HwErrorKind::InvalidIndex => "INVALID_INDEX"@,
            HwErrorKind::InvalidId => "INVALID_ID"@,
            HwErrorKind::Closed => "CLOSED"@,
            HwErrorKind::Removed => "REMOVED"@,
            HwErrorKind::Timeout => "TIMEOUT"@,
            HwErrorKind::Busy => "BUSY"@,
            HwErrorKind::InvalidParameter => "INVALID_PARAMETER"@,
            HwErrorKind::General => "GENERAL_ERROR"@,
        }
    }
}

} // verus!
