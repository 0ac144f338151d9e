//! Driver core for ZWO ASI astronomy cameras and filter wheels.
//!
//! The crate models the state a driver process keeps for each attached
//! device: a store of named, typed, permission-guarded properties, the
//! cached region-of-interest format, and the exposure state machine that
//! turns a raw sensor buffer into a FITS image file.  Hardware access
//! itself (the vendor SDK) stays outside; the functions here compute the
//! commands to send and fold the replies back into the device state.

pub mod device;
pub mod errors;
pub mod exposure;
pub mod fits;
pub mod numtext;
pub mod props;
pub mod sdk;
pub mod utils;

pub use device::{CameraInfo, ControlReading, Device, HwCommand, ROIFormat};
pub use errors::{check_error_code, DeviceError, HwErrorKind};
pub use exposure::{CapturePoll, CaptureRequest, CaptureStarted, ExposureState};
pub use props::{Permission, PropKind, PropValue, Property, PropertyStore};
pub use sdk::{AsiControlCaps, AsiID, AsiProperty, EFWInfo};
