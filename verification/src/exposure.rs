//! The exposure state machine: one capture per device at a time,
//! driven from `Idle` through `Exposing` and `Downloading` to
//! `Success` or `Failed`.

use vstd::prelude::*;
use crate::device::{Device, HwCommand};
use crate::errors::{DeviceError, HwErrorKind};
use crate::props::{spec_find, PropModel, ValueModel};

verus! {

/// Where a device stands in its capture cycle.  `Idle` is initial;
/// `Success` and `Failed` are terminal for one capture, and the next
/// request may start from either.
#[derive(Clone, Copy, Debug, PartialEq, Eq, Structural)]
pub enum ExposureState {
    Idle,
    Exposing,
    Downloading,
    Success,
    Failed,
}

/// What a capture request carries.  The exposure length is in
/// microseconds, as the hardware wants it; seconds are scaled at the
/// boundary that accepts the request.
#[derive(Clone, Copy, Debug, PartialEq, Eq, Structural)]
pub struct CaptureRequest {
    pub length_micros: i64,
    pub width: i32,
    pub height: i32,
    pub img_type: i32,
}

/// Whether an image type code means sixteen bits per pixel; such
/// formats need two bytes of buffer per pixel.  RAW16 (code 2) and
/// RGB24 (code 1) both count, as the driver has always sized them;
/// RAW8 and Y8 take one byte.
pub open spec fn is_sixteen_bit(img_type: int) -> bool {
    img_type == 1 || img_type == 2
}

/// Bytes of raw buffer one pixel occupies.
pub open spec fn bytes_per_pixel(img_type: int) -> int {
    if is_sixteen_bit(img_type) {
        2
    } else {
        1
    }
}

impl CaptureRequest {
    /// Dimensions the encoder can frame, and a non-negative length.
    /// The file format's axis records carry each size right-justified
    /// in a four-digit field (every header record is exactly 80
    /// bytes), which caps a capture's axes at 9999.
    pub open spec fn wf(self) -> bool {
        &&& 0 <= self.width <= 9999
        &&& 0 <= self.height <= 9999
        &&& self.length_micros >= 0
    }

    /// The raw buffer size this capture needs.
    pub open spec fn spec_buffer_size(self) -> int {
        self.width * self.height * bytes_per_pixel(self.img_type as int)
    }
}


/// The vendor control id of the exposure-length control.
pub const ASI_CONTROL_TYPE_ASI_EXPOSURE: i32 = 1;

/// What beginning a capture hands back: how large a raw buffer the
/// caller must provide for the download, and the hardware write that
/// sets the exposure length (in microseconds) before the start
/// command is issued.
#[derive(Clone, Copy, Debug, PartialEq, Eq, Structural)]
pub struct CaptureStarted {
    pub buffer_size: usize,
    pub set_exposure: HwCommand,
}

/// What the machine decides after one look at the hardware's
/// exposure status.
#[derive(Clone, Copy, Debug, PartialEq, Eq, Structural)]
pub enum CapturePoll {
    /// Still in progress: look again shortly.
    Wait,
    /// The exposure succeeded: download the data.
    Download,
    /// The exposure failed: no file is written, the device is free
    /// for the next request.
    Fail,
}

/// The store with the exposure bookkeeping entry set to a status
/// text.
pub open spec fn spec_set_status(s: Seq<PropModel>, status: Seq<char>) -> Seq<PropModel> {
    crate::device::spec_set_text(s, "exposure_status"@, status)
}

impl Device {
    /// Begin a capture: only one may be in flight per device, so a
    /// request that arrives while one is active is rejected and the
    /// device — including the in-flight capture — is left exactly as
    /// it was.  Otherwise the store records `EXPOSING`, the required
    /// buffer size is `width * height * bytes_per_pixel`, and the
    /// caller gets the exposure-length write to issue, followed by
    /// the hardware's start command.
    pub fn start_capture(&mut self, req: CaptureRequest) -> (r: Result<CaptureStarted, DeviceError>)
        requires
            old(self).wf(),
            old(self).has_exposure_status(),
            req.wf(),
        ensures
            final(self).wf(),
            final(self).has_exposure_status(),
            final(self).id == old(self).id,
            final(self).name == old(self).name,
            final(self).index == old(self).index,
            final(self).roi == old(self).roi,
            // a busy device rejects the request, wholly unchanged
            (old(self).exposure is Exposing || old(self).exposure is Downloading) <==> r == Err::<
                CaptureStarted,
                DeviceError,
            >(DeviceError::Hardware(HwErrorKind::Busy)),
            match r {
                Err(e) => e == DeviceError::Hardware(HwErrorKind::Busy) && *final(self) == *old(
                    self,
                ),
                Ok(cs) => {
                    &&& cs.buffer_size == req.spec_buffer_size()
                    &&& cs.set_exposure == (HwCommand::SetControl {
                        control: ASI_CONTROL_TYPE_ASI_EXPOSURE,
                        value: req.length_micros,
                    })
                    &&& final(self).exposure is Exposing
                    &&& final(self).capture == Some(req)
                    &&& final(self).store@ == spec_set_status(old(self).store@, "EXPOSING"@)
                },
            },
    {
        match self.exposure {
            ExposureState::Exposing | ExposureState::Downloading => Err(
                DeviceError::Hardware(HwErrorKind::Busy),
            ),
            _ => {
                let bpp: usize = if req.img_type == 1 || req.img_type == 2 {
                    2
                } else {
                    1
                };
                proof {
                    assert(0 <= (req.width as int) * (req.height as int) <= 9999 * 9999)
                        by (nonlinear_arith)
                        requires
                            0 <= req.width <= 9999,
                            0 <= req.height <= 9999,
                    ;
                }
                let buffer_size: usize = (req.width as usize) * (req.height as usize) * bpp;
                let set_res = self.update_internal_property("exposure_status", "EXPOSING");
                self.exposure = ExposureState::Exposing;
                self.capture = Some(req);
                Ok(
                    CaptureStarted {
                        buffer_size,
                        set_exposure: HwCommand::SetControl {
                            control: ASI_CONTROL_TYPE_ASI_EXPOSURE,
                            value: req.length_micros,
                        },
                    },
                )
            },
        }
    }

    /// Fold one hardware exposure-status reading into the machine.
    /// Status 1 means still exposing: wait and look again.  Status 2
    /// means success: the store records `SUCCESS` and the data is to
    /// be downloaded.  Any other status fails the capture: the store
    /// records `FAILED`, no file is written, and the device stays
    /// usable for the next request.
    pub fn capture_poll(&mut self, status: i32) -> (r: CapturePoll)
        requires
            old(self).wf(),
            old(self).has_exposure_status(),
            old(self).exposure is Exposing,
        ensures
            final(self).wf(),
            final(self).has_exposure_status(),
            final(self).id == old(self).id,
            final(self).name == old(self).name,
            final(self).index == old(self).index,
            final(self).roi == old(self).roi,
            status == 1 ==> r == CapturePoll::Wait && *final(self) == *old(self),
            status == 2 ==> {
                &&& r == CapturePoll::Download
                &&& final(self).exposure is Downloading
                &&& final(self).capture == old(self).capture
                &&& final(self).store@ == spec_set_status(old(self).store@, "SUCCESS"@)
            },
            status != 1 && status != 2 ==> {
                &&& r == CapturePoll::Fail
                &&& final(self).exposure is Failed
                &&& final(self).capture is None
                &&& final(self).store@ == spec_set_status(old(self).store@, "FAILED"@)
            },
    {
        if status == 1 {
            CapturePoll::Wait
        } else if status == 2 {
            let set_res = self.update_internal_property("exposure_status", "SUCCESS");
            self.exposure = ExposureState::Downloading;
            CapturePoll::Download
        } else {
            let set_res = self.update_internal_property("exposure_status", "FAILED");
            self.exposure = ExposureState::Failed;
            self.capture = None;
            CapturePoll::Fail
        }
    }

    /// Finish a capture whose data has been downloaded: the raw
    /// buffer is framed into the fixed-block image format, with the
    /// bit depth the capture's image type calls for, and the device
    /// returns to rest with the capture recorded as a success.
    pub fn complete_capture(&mut self, buffer: &Vec<u8>) -> (r: Vec<u8>)
        requires
            old(self).wf(),
            old(self).has_exposure_status(),
            old(self).exposure is Downloading,
            match old(self).capture {
                Some(req) => buffer@.len() == req.spec_buffer_size(),
                None => false,
            },
        ensures
            final(self).wf(),
            final(self).has_exposure_status(),
            final(self).id == old(self).id,
            final(self).name == old(self).name,
            final(self).index == old(self).index,
            final(self).roi == old(self).roi,
            final(self).store@ == old(self).store@,
            final(self).exposure is Success,
            final(self).capture is None,
            match old(self).capture {
                Some(req) => r@ == crate::fits::encoded(
                    if is_sixteen_bit(req.img_type as int) {
                        16
                    } else {
                        8
                    },
                    req.width as int,
                    req.height as int,
                    buffer@,
                ),
                None => true,
            },
    {
        match self.capture {
            Some(req) => {
                proof {
                    assert(0 <= (req.width as int) * (req.height as int) * 2 + 2880 <= i32::MAX)
                        by (nonlinear_arith)
                        requires
                            0 <= req.width <= 9999,
                            0 <= req.height <= 9999,
                    ;
                }
                let bit_depth: u8 = if req.img_type == 1 || req.img_type == 2 {
                    16
                } else {
                    8
                };
                let out = crate::fits::encode(buffer, req.width, req.height, bit_depth);
                self.exposure = ExposureState::Success;
                self.capture = None;
                out
            },
            None => {
                // unreachable: a downloading device always carries its capture
                self.exposure = ExposureState::Success;
                self.capture = None;
                Vec::new()
            },
        }
    }
}

} // verus!
