//! The per-device state container: one hardware handle's cached
//! state, its property store, and the region-of-interest format.
//!
//! All mutation goes through the methods here.  A client write is
//! validated first, then the hardware write is issued, and only a
//! successful hardware reply commits the new value into the store:
//! on any failure the store is exactly as it was.  The hardware call
//! itself is made by the caller between [`Device::plan_update`] and
//! [`Device::commit_update`]; [`Device::update_property`] summarizes
//! one whole round trip.

use vstd::prelude::*;
use crate::errors::{check_error_code, spec_hw_error, DeviceError};
use crate::exposure::{CaptureRequest, ExposureState};
use crate::numtext::{bool_literal, int_literal, parse_bool, parse_i64, str_eq, tenths_chars,
    tenths_to_string};
use crate::props::{
    new_read_only_prop, new_read_write_prop, spec_find, HwTarget, Permission, PropKind, PropModel,
    PropValue, Property, PropertyStore, ValueModel,
};
use crate::sdk::{AsiProperty, AsiPropertyModel};
use crate::utils::{bayer_chars, bayer_pattern_to_str, binning_chars, image_type_chars,
    image_types_chars, int_to_binning_str, int_to_image_type, int_to_image_type_array};
use vstd::string::StringExecFns;

verus! {

/// The active sensor window and binning/format configuration, read
/// from the hardware at initialization and cached after any
/// successful set.
#[derive(Clone, Copy, Debug, PartialEq, Eq, Structural)]
pub struct ROIFormat {
    pub width: i32,
    pub height: i32,
    pub bin: i32,
    pub img_type: i32,
}

/// The fixed attributes a camera reports at discovery, already
/// decoded into plain values at the driver boundary.  Values the SDK
/// reports as floating point arrive here as rendered text.
pub struct CameraInfo {
    pub name: String,
    pub camera_id: i32,
    pub max_height: i64,
    pub max_width: i64,
    pub is_color: bool,
    pub bayer_pattern: u32,
    pub supported_bins: [i32; 16],
    pub supported_video_format: [i32; 8],
    pub pixel_size: String,
    pub has_shutter: bool,
    pub st4: bool,
    pub elec_per_adu: String,
    pub bit_depth: i32,
    pub ls_rand_id: String,
}

/// The mathematical value of a [`CameraInfo`].
pub ghost struct CameraInfoModel {
    pub name: Seq<char>,
    pub camera_id: int,
    pub max_height: int,
    pub max_width: int,
    pub is_color: bool,
    pub bayer_pattern: int,
    pub supported_bins: Seq<i32>,
    pub supported_video_format: Seq<i32>,
    pub pixel_size: Seq<char>,
    pub has_shutter: bool,
    pub st4: bool,
    pub elec_per_adu: Seq<char>,
    pub bit_depth: int,
    pub ls_rand_id: Seq<char>,
}

impl View for CameraInfo {
    type V = CameraInfoModel;

    open spec fn view(&self) -> CameraInfoModel {
        CameraInfoModel {
            name: self.name@,
            camera_id: self.camera_id as int,
            max_height: self.max_height as int,
            max_width: self.max_width as int,
            is_color: self.is_color,
            bayer_pattern: self.bayer_pattern as int,
            supported_bins: self.supported_bins@,
            supported_video_format: self.supported_video_format@,
            pixel_size: self.pixel_size@,
            has_shutter: self.has_shutter,
            st4: self.st4,
            elec_per_adu: self.elec_per_adu@,
            bit_depth: self.bit_depth as int,
            ls_rand_id: self.ls_rand_id@,
        }
    }
}

/// A write the driver asks the hardware to perform.
#[derive(Clone, Copy, Debug, PartialEq, Eq, Structural)]
pub enum HwCommand {
    /// Set a control value, by vendor control id.
    SetControl { control: i32, value: i64 },
    /// Set the whole region-of-interest format.
    SetRoi { width: i32, height: i32, bin: i32, img_type: i32 },
    /// Move the filter wheel to a slot, counted from 1 as clients
    /// see it; the driver adapter layer shifts to the firmware's
    /// 0-based slot.
    SetPosition { slot: i32 },
    /// Set the filter wheel's direction flag.
    SetUnidirection { flag: bool },
}

/// One device's cached state.  Two devices share nothing; whoever
/// owns the `Device` serializes access to it.
pub struct Device {
    /// Stable opaque identifier for the process lifetime.
    pub id: String,
    pub name: String,
    pub store: PropertyStore,
    /// The hardware index the vendor SDK knows this device by.
    pub index: i32,
    pub roi: ROIFormat,
    pub exposure: ExposureState,
    /// The capture in flight, while one is.
    pub capture: Option<CaptureRequest>,
}

/// Whether the store carries a text property under this name.
pub open spec fn has_text_prop(s: Seq<PropModel>, name: Seq<char>) -> bool {
    match spec_find(s, name) {
        Some(i) => s[i].value is Text,
        None => false,
    }
}

/// The store with the named text entry set to new text; a missing
/// name changes nothing.
pub open spec fn spec_set_text(s: Seq<PropModel>, name: Seq<char>, text: Seq<char>) -> Seq<
    PropModel,
> {
    match spec_find(s, name) {
        Some(i) => s.update(i, PropModel { value: ValueModel::Text(text), ..s[i] }),
        None => s,
    }
}

/// Overwriting one entry with a same-type value under the same name
/// moves no lookup and keeps every text entry text.
proof fn lemma_has_text_prop_after_update(
    pre: Seq<PropModel>,
    i: int,
    p2: PropModel,
    name: Seq<char>,
)
    requires
        0 <= i < pre.len(),
        p2.name == pre[i].name,
        p2.value is Text <==> pre[i].value is Text,
    ensures
        has_text_prop(pre.update(i, p2), name) == has_text_prop(pre, name),
{
    let post = pre.update(i, p2);
    assert(forall|j: int| 0 <= j < pre.len() ==> (#[trigger] post[j]).name == pre[j].name);
    crate::props::lemma_spec_find_same_names(post, pre, name);
    crate::props::lemma_spec_find_found(pre, name);
}

impl Device {
    /// The container's invariant: a well-formed store, and a capture
    /// record exactly while a capture is in flight.
    pub open spec fn wf(self) -> bool {
        &&& self.store.wf()
        &&& match self.capture {
            Some(req) => req.wf(),
            None => true,
        }
        &&& (self.exposure is Exposing || self.exposure is Downloading ==> self.capture is Some)
    }

    /// Whether the store carries the exposure bookkeeping entry the
    /// capture cycle writes to.
    pub open spec fn has_exposure_status(self) -> bool {
        has_text_prop(self.store@, "exposure_status"@)
    }
}

/// Relies on uuid's `Uuid::new_v4` and its hyphenated `Display`
/// rendering: a fresh random identifier, 36 characters of text.
#[verifier::external_body]
pub(crate) fn new_device_id() -> (r: String)
    ensures
        r@.len() == 36,
{
    uuid::Uuid::new_v4().to_string()
}

/// The typed value a client-supplied string denotes for a property,
/// `None` when it does not parse as the property's type.
pub open spec fn parsed_value(p: PropModel, val: Seq<char>) -> Option<ValueModel> {
    match p.value {
        ValueModel::Int(_) => match int_literal(val) {
            Some(v) => if i64::MIN <= v <= i64::MAX {
                Some(ValueModel::Int(v))
            } else {
                None
            },
            None => None,
        },
        ValueModel::Bool(_) => match bool_literal(val) {
            Some(b) => Some(ValueModel::Bool(b)),
            None => None,
        },
        ValueModel::Text(_) => Some(ValueModel::Text(val)),
    }
}

/// Whether a client-supplied string is a valid new value: it parses
/// as the property's type, respects the bounds, and fits the width
/// its hardware target needs.
pub open spec fn value_admissible(p: PropModel, val: Seq<char>) -> bool {
    match parsed_value(p, val) {
        Some(ValueModel::Int(v)) => {
            &&& match p.bounds {
                Some((lo, hi)) => lo <= v <= hi,
                None => true,
            }
            &&& match p.target {
                HwTarget::RoiWidth => 0 <= v <= i32::MAX,
                HwTarget::RoiHeight => 0 <= v <= i32::MAX,
                HwTarget::Position => 0 <= v <= i32::MAX,
                _ => true,
            }
        },
        Some(_) => true,
        None => false,
    }
}

/// The hardware write a valid new value calls for; `None` when the
/// property lives in the store alone.
pub open spec fn spec_command(p: PropModel, roi: ROIFormat, v: ValueModel) -> Option<HwCommand> {
    match (p.target, v) {
        (HwTarget::Control(c), ValueModel::Int(n)) => Some(
            HwCommand::SetControl { control: c, value: n as i64 },
        ),
        (HwTarget::RoiWidth, ValueModel::Int(n)) => Some(
            HwCommand::SetRoi {
                width: n as i32,
                height: roi.height,
                bin: roi.bin,
                img_type: roi.img_type,
            },
        ),
        (HwTarget::RoiHeight, ValueModel::Int(n)) => Some(
            HwCommand::SetRoi {
                width: roi.width,
                height: n as i32,
                bin: roi.bin,
                img_type: roi.img_type,
            },
        ),
        (HwTarget::Position, ValueModel::Int(n)) => Some(HwCommand::SetPosition { slot: n as i32 }),
        (HwTarget::Unidirection, ValueModel::Bool(b)) => Some(
            HwCommand::SetUnidirection { flag: b },
        ),
        _ => None,
    }
}

/// What validating a client write decides: the error owed for this
/// name and value, or the hardware write to issue (`None` for a
/// store-only property).
pub open spec fn spec_plan(
    props: Seq<PropModel>,
    roi: ROIFormat,
    name: Seq<char>,
    val: Seq<char>,
) -> Result<Option<HwCommand>, DeviceError> {
    match spec_find(props, name) {
        None => Err(DeviceError::UnknownProperty),
        Some(i) => {
            let p = props[i];
            if p.permission != Permission::ReadWrite {
                Err(DeviceError::ReadOnlyProperty)
            } else if !value_admissible(p, val) {
                Err(DeviceError::InvalidValue)
            } else {
                match parsed_value(p, val) {
                    Some(v) => Ok(spec_command(p, roi, v)),
                    None => Err(DeviceError::InvalidValue),
                }
            }
        },
    }
}

/// The store after a commit of this name and value.
pub open spec fn spec_committed_props(
    props: Seq<PropModel>,
    name: Seq<char>,
    val: Seq<char>,
) -> Seq<PropModel> {
    match spec_find(props, name) {
        Some(i) => match parsed_value(props[i], val) {
            Some(v) => props.update(i, PropModel { value: v, ..props[i] }),
            None => props,
        },
        None => props,
    }
}

/// The cached region-of-interest format after a commit: a width or
/// height write refreshes the cache, anything else leaves it.
pub open spec fn spec_committed_roi(
    props: Seq<PropModel>,
    roi: ROIFormat,
    name: Seq<char>,
    val: Seq<char>,
) -> ROIFormat {
    match spec_find(props, name) {
        Some(i) => {
            let p = props[i];
            match (p.target, parsed_value(p, val)) {
                (HwTarget::RoiWidth, Some(ValueModel::Int(v))) => ROIFormat {
                    width: v as i32,
                    ..roi
                },
                (HwTarget::RoiHeight, Some(ValueModel::Int(v))) => ROIFormat {
                    height: v as i32,
                    ..roi
                },
                _ => roi,
            }
        },
        None => roi,
    }
}

/// The hardware write a valid parsed value calls for.
fn command_for(p: &Property, roi: &ROIFormat, v: &PropValue) -> (r: Option<HwCommand>)
    ensures
        r == spec_command(p@, *roi, v@),
{
    match p.target {
        HwTarget::Control(c) => match v {
            PropValue::Int(n) => Some(HwCommand::SetControl { control: c, value: *n }),
            _ => None,
        },
        HwTarget::RoiWidth => match v {
            PropValue::Int(n) => Some(
                HwCommand::SetRoi {
                    width: *n as i32,
                    height: roi.height,
                    bin: roi.bin,
                    img_type: roi.img_type,
                },
            ),
            _ => None,
        },
        HwTarget::RoiHeight => match v {
            PropValue::Int(n) => Some(
                HwCommand::SetRoi {
                    width: roi.width,
                    height: *n as i32,
                    bin: roi.bin,
                    img_type: roi.img_type,
                },
            ),
            _ => None,
        },
        HwTarget::Position => match v {
            PropValue::Int(n) => Some(HwCommand::SetPosition { slot: *n as i32 }),
            _ => None,
        },
        HwTarget::Unidirection => match v {
            PropValue::Bool(b) => Some(HwCommand::SetUnidirection { flag: *b }),
            _ => None,
        },
        HwTarget::Internal => None,
    }
}

impl Device {
    /// Parse and check a client-supplied value for a property.
    fn parse_value(p: &Property, val: &str) -> (r: Option<PropValue>)
        ensures
            match r {
                Some(v) => value_admissible(p@, val@) && parsed_value(p@, val@) == Some(v@),
                None => !value_admissible(p@, val@),
            },
    {
        match &p.value {
            PropValue::Int(_) => match parse_i64(val) {
                Some(v) => {
                    if let Some((lo, hi)) = p.bounds {
                        if v < lo || v > hi {
                            return None;
                        }
                    }
                    match p.target {
                        HwTarget::RoiWidth | HwTarget::RoiHeight | HwTarget::Position => {
                            if v < 0 || v > i32::MAX as i64 {
                                return None;
                            }
                        },
                        _ => {},
                    }
                    Some(PropValue::Int(v))
                },
                None => None,
            },
            PropValue::Bool(_) => match parse_bool(val) {
                Some(b) => Some(PropValue::Bool(b)),
                None => None,
            },
            PropValue::Text(_) => Some(PropValue::Text(val.to_owned())),
        }
    }

    /// Validate a client write without touching anything: the error
    /// owed, or the hardware write to issue before committing.
    pub fn plan_update(&self, prop_name: &str, val: &str) -> (r: Result<
        Option<HwCommand>,
        DeviceError,
    >)
        requires
            self.wf(),
        ensures
            r == spec_plan(self.store@, self.roi, prop_name@, val@),
    {
        match self.store.find_property_index(prop_name) {
            None => Err(DeviceError::UnknownProperty),
            Some(i) => {
                let p = self.store.get_at(i);
                if !matches!(p.permission, Permission::ReadWrite) {
                    Err(DeviceError::ReadOnlyProperty)
                } else {
                    match Self::parse_value(p, val) {
                        None => Err(DeviceError::InvalidValue),
                        Some(v) => Ok(command_for(p, &self.roi, &v)),
                    }
                }
            },
        }
    }

    /// Fold the hardware's reply to the planned write back into the
    /// state: a zero status commits the new value, anything else (or
    /// a validation failure) leaves every cached value as it was.
    pub fn commit_update(&mut self, prop_name: &str, val: &str, hw_status: i32) -> (r: Result<
        (),
        DeviceError,
    >)
        requires
            old(self).wf(),
        ensures
            final(self).wf(),
            final(self).id == old(self).id,
            final(self).name == old(self).name,
            final(self).index == old(self).index,
            final(self).exposure == old(self).exposure,
            final(self).capture == old(self).capture,
            final(self).has_exposure_status() == old(self).has_exposure_status(),
            match spec_plan(old(self).store@, old(self).roi, prop_name@, val@) {
                Err(e) => r == Err::<(), DeviceError>(e) && *final(self) == *old(self),
                Ok(cmd) => if cmd is Some && hw_status != 0 {
                    &&& r == Err::<(), DeviceError>(
                        spec_hw_error(hw_status as int),
                    )
                    &&& *final(self) == *old(self)
                } else {
                    &&& r == Ok::<(), DeviceError>(())
                    &&& final(self).store@ == spec_committed_props(
                        old(self).store@,
                        prop_name@,
                        val@,
                    )
                    &&& final(self).roi == spec_committed_roi(
                        old(self).store@,
                        old(self).roi,
                        prop_name@,
                        val@,
                    )
                },
            },
    {
        let planned = self.plan_update(prop_name, val);
        match planned {
            Err(e) => Err(e),
            Ok(cmd) => {
                if cmd.is_some() && hw_status != 0 {
                    match check_error_code(hw_status) {
                        Some(kind) => Err(DeviceError::Hardware(kind)),
                        None => Err(DeviceError::InvalidValue),  // unreachable: the status is nonzero
                    }
                } else {
                    match self.store.find_property_index(prop_name) {
                        Some(i) => {
                            let p = self.store.get_at(i);
                            match Self::parse_value(p, val) {
                                Some(v) => {
                                    let target = p.target;
                                    let new_roi: ROIFormat = match (target, &v) {
                                        (HwTarget::RoiWidth, PropValue::Int(n)) => ROIFormat {
                                            width: *n as i32,
                                            ..self.roi
                                        },
                                        (HwTarget::RoiHeight, PropValue::Int(n)) => ROIFormat {
                                            height: *n as i32,
                                            ..self.roi
                                        },
                                        _ => self.roi,
                                    };
                                    let ghost vm = v@;
                                    self.store.set_value_at(i, v);
                                    self.roi = new_roi;
                                    proof {
                                        lemma_has_text_prop_after_update(
                                            old(self).store@,
                                            i as int,
                                            PropModel { value: vm, ..old(self).store@[i as int] },
                                            "exposure_status"@,
                                        );
                                    }
                                    Ok(())
                                },
                                None => Err(DeviceError::InvalidValue),  // unreachable: the plan validated
                            }
                        },
                        None => Err(DeviceError::UnknownProperty),  // unreachable: the plan found it
                    }
                }
            },
        }
    }

    /// One whole client write, as the request handler sees it: the
    /// validation verdict, the hardware write that was issued (if
    /// any), and the commit governed by the hardware's reply.
    ///
    /// A read-only property is never changed; an unknown name and an
    /// invalid value change nothing; on any failure every cached
    /// value is exactly as it was — there are no partial updates.
    pub fn update_property(&mut self, prop_name: &str, val: &str, hw_status: i32) -> (r: (
        Result<(), DeviceError>,
        Option<HwCommand>,
    ))
        requires
            old(self).wf(),
        ensures
            final(self).wf(),
            final(self).id == old(self).id,
            final(self).name == old(self).name,
            final(self).index == old(self).index,
            final(self).exposure == old(self).exposure,
            final(self).capture == old(self).capture,
            final(self).has_exposure_status() == old(self).has_exposure_status(),
            // what was issued to the hardware: the planned write, or nothing
            r.1 == (match spec_plan(old(self).store@, old(self).roi, prop_name@, val@) {
                Ok(cmd) => cmd,
                Err(_) => None,
            }),
            // the round trip's outcome and the exact new state
            match spec_plan(old(self).store@, old(self).roi, prop_name@, val@) {
                Err(e) => r.0 == Err::<(), DeviceError>(e) && *final(self) == *old(self),
                Ok(cmd) => if cmd is Some && hw_status != 0 {
                    &&& r.0 == Err::<(), DeviceError>(
                        spec_hw_error(hw_status as int),
                    )
                    &&& *final(self) == *old(self)
                } else {
                    &&& r.0 == Ok::<(), DeviceError>(())
                    &&& final(self).store@ == spec_committed_props(
                        old(self).store@,
                        prop_name@,
                        val@,
                    )
                    &&& final(self).roi == spec_committed_roi(
                        old(self).store@,
                        old(self).roi,
                        prop_name@,
                        val@,
                    )
                },
            },
            // a read-only property always refuses the write, unchanged
            (match spec_find(old(self).store@, prop_name@) {
                Some(i) => old(self).store@[i].permission == Permission::ReadOnly,
                None => false,
            }) ==> r.0 == Err::<(), DeviceError>(DeviceError::ReadOnlyProperty) && *final(self)
                == *old(self),
            // an unknown name always refuses the write, unchanged
            spec_find(old(self).store@, prop_name@) is None ==> r.0 == Err::<(), DeviceError>(
                DeviceError::UnknownProperty,
            ) && *final(self) == *old(self),
            // no partial updates: any failure leaves the device as it was
            r.0 is Err ==> *final(self) == *old(self),
    {
        let planned = self.plan_update(prop_name, val);
        let issued: Option<HwCommand> = match &planned {
            Ok(cmd) => *cmd,
            Err(_) => None,
        };
        let outcome = self.commit_update(prop_name, val, hw_status);
        (outcome, issued)
    }

    /// A driver-internal write: set a text property (such as the
    /// exposure status) without permission checks or hardware I/O.
    pub fn update_internal_property(&mut self, prop_name: &str, val: &str) -> (r: Result<
        (),
        DeviceError,
    >)
        requires
            old(self).wf(),
        ensures
            final(self).wf(),
            final(self).id == old(self).id,
            final(self).name == old(self).name,
            final(self).index == old(self).index,
            final(self).roi == old(self).roi,
            final(self).exposure == old(self).exposure,
            final(self).capture == old(self).capture,
            final(self).has_exposure_status() == old(self).has_exposure_status(),
            match spec_find(old(self).store@, prop_name@) {
                None => r == Err::<(), DeviceError>(DeviceError::UnknownProperty) && *final(self)
                    == *old(self),
                Some(i) => if old(self).store@[i].value is Text {
                    r == Ok::<(), DeviceError>(()) && final(self).store@ == old(
                        self,
                    ).store@.update(
                        i,
                        PropModel { value: ValueModel::Text(val@), ..old(self).store@[i] },
                    )
                } else {
                    r == Err::<(), DeviceError>(DeviceError::InvalidValue) && *final(self) == *old(
                        self,
                    )
                },
            },
    {
        match self.store.find_property_index(prop_name) {
            None => Err(DeviceError::UnknownProperty),
            Some(i) => {
                let is_text = matches!(self.store.get_at(i).value, PropValue::Text(_));
                if is_text {
                    self.store.set_value_at(i, PropValue::Text(val.to_owned()));
                    proof {
                        lemma_has_text_prop_after_update(
                            old(self).store@,
                            i as int,
                            PropModel {
                                value: ValueModel::Text(val@),
                                ..old(self).store@[i as int]
                            },
                            "exposure_status"@,
                        );
                    }
                    Ok(())
                } else {
                    Err(DeviceError::InvalidValue)
                }
            },
        }
    }

    /// Begin a filter wheel calibration: the store shows `on` while
    /// the wheel is calibrating; the caller then issues the
    /// hardware's calibrate command and watches the wheel with
    /// [`Device::calibration_poll`].
    pub fn begin_calibration(&mut self) -> (r: Result<(), DeviceError>)
        requires
            old(self).wf(),
            has_text_prop(old(self).store@, "calibration"@),
        ensures
            final(self).wf(),
            final(self).id == old(self).id,
            final(self).name == old(self).name,
            final(self).index == old(self).index,
            final(self).roi == old(self).roi,
            final(self).exposure == old(self).exposure,
            final(self).capture == old(self).capture,
            final(self).has_exposure_status() == old(self).has_exposure_status(),
            has_text_prop(final(self).store@, "calibration"@),
            r == Ok::<(), DeviceError>(()),
            final(self).store@ == spec_set_text(old(self).store@, "calibration"@, "on"@),
    {
        let r = self.update_internal_property("calibration", "on");
        proof {
            crate::props::lemma_spec_find_found(old(self).store@, "calibration"@);
            match spec_find(old(self).store@, "calibration"@) {
                Some(i) => {
                    lemma_has_text_prop_after_update(
                        old(self).store@,
                        i,
                        PropModel { value: ValueModel::Text("on"@), ..old(self).store@[i] },
                        "calibration"@,
                    );
                },
                None => {},
            }
        }
        r
    }

    /// One step of the calibration watch: while the wheel still
    /// moves, keep waiting; once it stops, the store returns to
    /// `off` and the calibration is done.
    pub fn calibration_poll(&mut self, moving: bool) -> (done: bool)
        requires
            old(self).wf(),
            has_text_prop(old(self).store@, "calibration"@),
        ensures
            final(self).wf(),
            final(self).id == old(self).id,
            final(self).name == old(self).name,
            final(self).index == old(self).index,
            final(self).roi == old(self).roi,
            final(self).exposure == old(self).exposure,
            final(self).capture == old(self).capture,
            final(self).has_exposure_status() == old(self).has_exposure_status(),
            has_text_prop(final(self).store@, "calibration"@),
            moving ==> !done && *final(self) == *old(self),
            !moving ==> done && final(self).store@ == spec_set_text(
                old(self).store@,
                "calibration"@,
                "off"@,
            ),
    {
        if moving {
            false
        } else {
            let r = self.update_internal_property("calibration", "off");
            proof {
                crate::props::lemma_spec_find_found(old(self).store@, "calibration"@);
                match spec_find(old(self).store@, "calibration"@) {
                    Some(i) => {
                        lemma_has_text_prop_after_update(
                            old(self).store@,
                            i,
                            PropModel { value: ValueModel::Text("off"@), ..old(self).store@[i] },
                            "calibration"@,
                        );
                    },
                    None => {},
                }
            }
            true
        }
    }

    /// The device's stable identifier.
    pub fn get_id(&self) -> (r: &String)
        ensures
            r == &self.id,
    {
        &self.id
    }

    /// The device's name, as the hardware reports it.
    pub fn get_name(&self) -> (r: &String)
        ensures
            r == &self.name,
    {
        &self.name
    }

    /// The cached property state.  Reading it copies nothing and
    /// never observes a torn update: the borrow rules serialize it
    /// against every write.
    pub fn get_properties(&self) -> (r: &PropertyStore)
        ensures
            r == &self.store,
    {
        &self.store
    }

    /// The hardware index behind this device.
    pub fn get_index(&self) -> (r: i32)
        ensures
            r == self.index,
    {
        self.index
    }

    pub fn get_actual_width(&self) -> (r: i32)
        ensures
            r == self.roi.width,
    {
        self.roi.width
    }

    pub fn get_actual_height(&self) -> (r: i32)
        ensures
            r == self.roi.height,
    {
        self.roi.height
    }

    pub fn get_actual_raw_bin(&self) -> (r: i32)
        ensures
            r == self.roi.bin,
    {
        self.roi.bin
    }

    pub fn get_actual_raw_img_type(&self) -> (r: i32)
        ensures
            r == self.roi.img_type,
    {
        self.roi.img_type
    }

    /// The cached binning, rendered as `NxN`.
    pub fn get_actual_bin(&self) -> (r: String)
        ensures
            r@ == crate::utils::binning_chars(seq![self.roi.bin], 0),
    {
        let arr: [i32; 1] = [self.roi.bin];
        proof {
            assert(arr@ =~= seq![self.roi.bin]);
        }
        crate::utils::int_to_binning_str(arr.as_slice())
    }

    /// The cached image type, rendered as its name.
    pub fn get_actual_img_type(&self) -> (r: String)
        ensures
            r@ == crate::utils::image_type_chars(self.roi.img_type as int),
    {
        crate::utils::int_to_image_type(self.roi.img_type)
    }
}


/// Appending one property as the builders do: a name already present
/// keeps its first entry and the newcomer is dropped.
pub open spec fn add_prop(s: Seq<PropModel>, p: PropModel) -> Seq<PropModel> {
    if spec_find(s, p.name) is Some {
        s
    } else {
        s.push(p)
    }
}

/// The store after the first `k` of these properties are appended to
/// `base`, in order.
pub open spec fn added_props_from(
    base: Seq<PropModel>,
    ps: Seq<PropModel>,
    k: int,
) -> Seq<PropModel>
    decreases k,
{
    if k <= 0 {
        base
    } else {
        add_prop(added_props_from(base, ps, k - 1), ps[k - 1])
    }
}

/// Whether the store's entry under this model's name is exactly it.
pub open spec fn store_has(s: Seq<PropModel>, p: PropModel) -> bool {
    match spec_find(s, p.name) {
        Some(i) => s[i] == p,
        None => false,
    }
}

/// Adding more properties never disturbs an entry already found.
proof fn lemma_add_prop_keeps(s: Seq<PropModel>, p: PropModel, q: PropModel)
    requires
        store_has(s, q),
    ensures
        store_has(add_prop(s, p), q),
{
    crate::props::lemma_spec_find_found(s, q.name);
    if spec_find(s, p.name) is None {
        match spec_find(s, q.name) {
            Some(i) => {
                assert forall|j: int| 0 <= j < i implies (#[trigger] s.push(p)[j]).name
                    != q.name by {
                    assert(s.push(p)[j] == s[j]);
                }
                assert(s.push(p)[i] == s[i]);
                crate::props::lemma_spec_find_at(s.push(p), q.name, i);
            },
            None => {},
        }
    }
}

proof fn lemma_added_from_keeps(base: Seq<PropModel>, ps: Seq<PropModel>, k: int, q: PropModel)
    requires
        0 <= k,
        store_has(base, q),
    ensures
        store_has(added_props_from(base, ps, k), q),
    decreases k,
{
    if k > 0 {
        lemma_added_from_keeps(base, ps, k - 1, q);
        lemma_add_prop_keeps(added_props_from(base, ps, k - 1), ps[k - 1], q);
    }
}

/// Appending entries whose names are fresh and pairwise different is
/// plain concatenation.
proof fn lemma_added_from_all_new(base: Seq<PropModel>, ps: Seq<PropModel>, k: int)
    requires
        0 <= k <= ps.len(),
        forall|j: int| 0 <= j < ps.len() ==> spec_find(base, (#[trigger] ps[j]).name) is None,
        forall|a: int, b: int|
            0 <= a < b < ps.len() ==> (#[trigger] ps[a]).name != (#[trigger] ps[b]).name,
    ensures
        added_props_from(base, ps, k) == base + ps.take(k),
    decreases k,
{
    if k <= 0 {
        assert(base + ps.take(0) =~= base);
    } else {
        lemma_added_from_all_new(base, ps, k - 1);
        let cur = base + ps.take(k - 1);
        crate::props::lemma_spec_find_found(base, ps[k - 1].name);
        assert forall|j: int| 0 <= j < cur.len() implies (#[trigger] cur[j]).name != ps[k
            - 1].name by {
            if j < base.len() {
                assert(cur[j] == base[j]);
            } else {
                assert(cur[j] == ps[j - base.len()]);
            }
        }
        crate::props::lemma_spec_find_at(cur, ps[k - 1].name, cur.len() as int);
        assert(add_prop(cur, ps[k - 1]) =~= base + ps.take(k));
    }
}

/// Add one more property as the builders do, keeping the exposure
/// bookkeeping entry pinned once it is there.
fn add_extra(store: &mut PropertyStore, p: Property)
    requires
        old(store).wf(),
        p@.wf(),
    ensures
        final(store).wf(),
        final(store)@ == add_prop(old(store)@, p@),
        has_text_prop(old(store)@, "exposure_status"@) ==> has_text_prop(
            final(store)@,
            "exposure_status"@,
        ),
{
    let ghost pre = store@;
    let _ = store.add(p);
    proof {
        crate::props::lemma_spec_find_found(pre, "exposure_status"@);
    }
}

/// The built-in entries every fresh camera store begins with: the
/// exposure bookkeeping, the fixed attributes the hardware reported,
/// and the four region-of-interest entries rendered from the cache,
/// in order and with their initial values.
pub open spec fn camera_base_list(info: CameraInfoModel, roi: ROIFormat) -> Seq<PropModel> {
    seq![
        PropModel {
            name: "exposure_status"@,
            value: ValueModel::Text("IDLE"@),
            kind: PropKind::Text,
            permission: Permission::ReadOnly,
            bounds: None,
            target: HwTarget::Internal,
        },
        PropModel {
            name: "exposing"@,
            value: ValueModel::Bool(false),
            kind: PropKind::Boolean,
            permission: Permission::ReadOnly,
            bounds: None,
            target: HwTarget::Internal,
        },
        PropModel {
            name: "blob"@,
            value: ValueModel::Text(Seq::empty()),
            kind: PropKind::Bytes,
            permission: Permission::ReadOnly,
            bounds: None,
            target: HwTarget::Internal,
        },
        PropModel {
            name: "camera_id"@,
            value: ValueModel::Int(info.camera_id),
            kind: PropKind::Integer,
            permission: Permission::ReadOnly,
            bounds: None,
            target: HwTarget::Internal,
        },
        PropModel {
            name: "max_height"@,
            value: ValueModel::Int(info.max_height),
            kind: PropKind::Integer,
            permission: Permission::ReadOnly,
            bounds: None,
            target: HwTarget::Internal,
        },
        PropModel {
            name: "max_width"@,
            value: ValueModel::Int(info.max_width),
            kind: PropKind::Integer,
            permission: Permission::ReadOnly,
            bounds: None,
            target: HwTarget::Internal,
        },
        PropModel {
            name: "is_color"@,
            value: ValueModel::Bool(info.is_color),
            kind: PropKind::Boolean,
            permission: Permission::ReadOnly,
            bounds: None,
            target: HwTarget::Internal,
        },
        PropModel {
            name: "bayer_pattern"@,
            value: ValueModel::Text(bayer_chars(info.bayer_pattern)),
            kind: PropKind::Text,
            permission: Permission::ReadOnly,
            bounds: None,
            target: HwTarget::Internal,
        },
        PropModel {
            name: "supported_bins"@,
            value: ValueModel::Text(binning_chars(info.supported_bins, 0)),
            kind: PropKind::Array,
            permission: Permission::ReadOnly,
            bounds: None,
            target: HwTarget::Internal,
        },
        PropModel {
            name: "supported_video_formats"@,
            value: ValueModel::Text(image_types_chars(info.supported_video_format, 0)),
            kind: PropKind::Array,
            permission: Permission::ReadOnly,
            bounds: None,
            target: HwTarget::Internal,
        },
        PropModel {
            name: "pixel_size"@,
            value: ValueModel::Text(info.pixel_size),
            kind: PropKind::Float,
            permission: Permission::ReadOnly,
            bounds: None,
            target: HwTarget::Internal,
        },
        PropModel {
            name: "has_shutter"@,
            value: ValueModel::Bool(info.has_shutter),
            kind: PropKind::Boolean,
            permission: Permission::ReadOnly,
            bounds: None,
            target: HwTarget::Internal,
        },
        PropModel {
            name: "st4"@,
            value: ValueModel::Bool(info.st4),
            kind: PropKind::Boolean,
            permission: Permission::ReadOnly,
            bounds: None,
            target: HwTarget::Internal,
        },
        PropModel {
            name: "elec_per_adu"@,
            value: ValueModel::Text(info.elec_per_adu),
            kind: PropKind::Float,
            permission: Permission::ReadOnly,
            bounds: None,
            target: HwTarget::Internal,
        },
        PropModel {
            name: "bit_depth"@,
            value: ValueModel::Int(info.bit_depth),
            kind: PropKind::Integer,
            permission: Permission::ReadOnly,
            bounds: None,
            target: HwTarget::Internal,
        },
        PropModel {
            name: "ls_rand_id"@,
            value: ValueModel::Text(info.ls_rand_id),
            kind: PropKind::Text,
            permission: Permission::ReadWrite,
            bounds: None,
            target: HwTarget::Internal,
        },
        PropModel {
            name: "width"@,
            value: ValueModel::Int(roi.width as int),
            kind: PropKind::Integer,
            permission: Permission::ReadWrite,
            bounds: Some((0, info.max_width)),
            target: HwTarget::RoiWidth,
        },
        PropModel {
            name: "height"@,
            value: ValueModel::Int(roi.height as int),
            kind: PropKind::Integer,
            permission: Permission::ReadWrite,
            bounds: Some((0, info.max_height)),
            target: HwTarget::RoiHeight,
        },
        PropModel {
            name: "bin"@,
            value: ValueModel::Text(binning_chars(seq![roi.bin], 0)),
            kind: PropKind::Text,
            permission: Permission::ReadWrite,
            bounds: None,
            target: HwTarget::Internal,
        },
        PropModel {
            name: "image_type"@,
            value: ValueModel::Text(image_type_chars(roi.img_type as int)),
            kind: PropKind::Text,
            permission: Permission::ReadWrite,
            bounds: None,
            target: HwTarget::Internal,
        },
    ]
}

/// The store entry one control capability turns into: the
/// temperature (reported in tenths of a degree) as rendered decimal
/// text, every other control as an integer with its reported bounds.
pub open spec fn control_prop_model(cap: AsiPropertyModel, value: int) -> PropModel {
    let permission = if cap.is_writable {
        Permission::ReadWrite
    } else {
        Permission::ReadOnly
    };
    if cap.name == "temperature"@ {
        PropModel {
            name: cap.name,
            value: ValueModel::Text(tenths_chars(value)),
            kind: PropKind::Float,
            permission,
            bounds: None,
            target: HwTarget::Control(cap.control_type as i32),
        }
    } else {
        PropModel {
            name: cap.name,
            value: ValueModel::Int(value),
            kind: PropKind::Integer,
            permission,
            bounds: Some((cap.min_value, cap.max_value)),
            target: HwTarget::Control(cap.control_type as i32),
        }
    }
}

/// The planned control entries, one per capability.
pub open spec fn control_prop_list(caps: Seq<AsiPropertyModel>, values: Seq<int>) -> Seq<
    PropModel,
> {
    Seq::new(caps.len(), |k: int| control_prop_model(caps[k], values[k]))
}

/// The models of a capability list.
pub open spec fn cap_views(caps: Seq<AsiProperty>) -> Seq<AsiPropertyModel> {
    Seq::new(caps.len(), |k: int| caps[k]@)
}

/// The models of the read control values.
pub open spec fn val_views(vs: Seq<i64>) -> Seq<int> {
    Seq::new(vs.len(), |k: int| vs[k] as int)
}

/// Everything a fresh camera store holds: the built-in entries, then
/// one entry per capability, in order; a name that repeats keeps its
/// first entry.
pub open spec fn camera_props(
    info: CameraInfoModel,
    caps: Seq<AsiPropertyModel>,
    values: Seq<int>,
    roi: ROIFormat,
) -> Seq<PropModel> {
    added_props_from(
        added_props_from(Seq::empty(), camera_base_list(info, roi), 20),
        control_prop_list(caps, values),
        caps.len() as int,
    )
}

/// Under the data model's own uniqueness — every capability name
/// appears once and clashes with no built-in entry — a fresh camera
/// store is the built-in entries followed by exactly one entry per
/// capability, each holding its planned value.
pub proof fn lemma_camera_props_controls(
    info: CameraInfoModel,
    caps: Seq<AsiPropertyModel>,
    values: Seq<int>,
    roi: ROIFormat,
    k: int,
)
    requires
        caps.len() == values.len(),
        0 <= k < caps.len(),
        forall|a: int, b: int|
            0 <= a < b < caps.len() ==> (#[trigger] caps[a]).name != (#[trigger] caps[b]).name,
        forall|j: int|
            0 <= j < caps.len() ==> spec_find(
                camera_base_list(info, roi),
                (#[trigger] caps[j]).name,
            ) is None,
    ensures
        camera_props(info, caps, values, roi).len() == 20 + caps.len(),
        store_has(camera_props(info, caps, values, roi), control_prop_model(caps[k], values[k])),
{
    lemma_camera_base_distinct(info, roi);
    let base = camera_base_list(info, roi);
    assert forall|a: int, b: int| 0 <= a < b < 20 implies (#[trigger] base[a]).name != (
    #[trigger] base[b]).name by {
        assert(camera_base_list(info, roi)[a] == base[a]);
        assert(camera_base_list(info, roi)[b] == base[b]);
    }
    assert forall|j: int| 0 <= j < base.len() implies spec_find(
        Seq::<PropModel>::empty(),
        (#[trigger] base[j]).name,
    ) is None by {}
    lemma_added_from_all_new(Seq::empty(), base, 20);
    assert(Seq::<PropModel>::empty() + base.take(20) =~= base);

    let ctrl = control_prop_list(caps, values);
    assert(forall|j: int| 0 <= j < ctrl.len() ==> (#[trigger] ctrl[j]).name == caps[j].name);
    assert forall|j: int| 0 <= j < ctrl.len() implies spec_find(
        base,
        (#[trigger] ctrl[j]).name,
    ) is None by {
        assert(ctrl[j].name == caps[j].name);
    }
    assert forall|a: int, b: int| 0 <= a < b < ctrl.len() implies (#[trigger] ctrl[a]).name != (
    #[trigger] ctrl[b]).name by {
        assert(ctrl[a].name == caps[a].name);
        assert(ctrl[b].name == caps[b].name);
    }
    lemma_added_from_all_new(base, ctrl, ctrl.len() as int);
    let full = base + ctrl.take(ctrl.len() as int);
    assert(ctrl.take(ctrl.len() as int) =~= ctrl);
    assert(camera_props(info, caps, values, roi) == full);

    crate::props::lemma_spec_find_found(base, ctrl[k].name);
    assert forall|i: int| 0 <= i < 20 + k implies (#[trigger] full[i]).name != ctrl[k].name by {
        if i < 20 {
            assert(full[i] == base[i]);
        } else {
            assert(full[i] == ctrl[i - 20]);
            assert(ctrl[i - 20].name == caps[i - 20].name);
            assert(ctrl[k].name == caps[k].name);
        }
    }
    assert(full[20 + k] == ctrl[k]);
    crate::props::lemma_spec_find_at(full, ctrl[k].name, 20 + k);
}

/// The four entries a fresh filter wheel store holds, in order.
pub open spec fn efw_props(slots: int, position: int, unidirectional: bool) -> Seq<PropModel> {
    seq![
        PropModel {
            name: "available_slots"@,
            value: ValueModel::Int(slots),
            kind: PropKind::Integer,
            permission: Permission::ReadOnly,
            bounds: None,
            target: HwTarget::Internal,
        },
        PropModel {
            name: "actual_slot"@,
            value: ValueModel::Int(position),
            kind: PropKind::Integer,
            permission: Permission::ReadWrite,
            bounds: Some((1, 5)),
            target: HwTarget::Position,
        },
        PropModel {
            name: "unidirectional"@,
            value: ValueModel::Bool(unidirectional),
            kind: PropKind::Boolean,
            permission: Permission::ReadWrite,
            bounds: None,
            target: HwTarget::Unidirection,
        },
        PropModel {
            name: "calibration"@,
            value: ValueModel::Text("off"@),
            kind: PropKind::Text,
            permission: Permission::ReadOnly,
            bounds: None,
            target: HwTarget::Internal,
        },
    ]
}

/// The twenty built-in camera entry names are pairwise different.
#[verifier::rlimit(100)]
proof fn lemma_camera_base_distinct(info: CameraInfoModel, roi: ROIFormat)
    ensures
        camera_base_list(info, roi).len() == 20,
        forall|a: int, b: int|
            0 <= a < b < 20 ==> (#[trigger] camera_base_list(info, roi)[a]).name != (
            #[trigger] camera_base_list(info, roi)[b]).name,
{
    reveal_strlit("exposure_status");
    reveal_strlit("exposing");
    reveal_strlit("blob");
    reveal_strlit("camera_id");
    reveal_strlit("max_height");
    reveal_strlit("max_width");
    reveal_strlit("is_color");
    reveal_strlit("bayer_pattern");
    reveal_strlit("supported_bins");
    reveal_strlit("supported_video_formats");
    reveal_strlit("pixel_size");
    reveal_strlit("has_shutter");
    reveal_strlit("st4");
    reveal_strlit("elec_per_adu");
    reveal_strlit("bit_depth");
    reveal_strlit("ls_rand_id");
    reveal_strlit("width");
    reveal_strlit("height");
    reveal_strlit("bin");
    reveal_strlit("image_type");
    assert("exposure_status"@.len() == 15);
    assert("exposure_status"@[0] == 'e');
    assert("exposing"@.len() == 8);
    assert("exposing"@[0] == 'e');
    assert("blob"@.len() == 4);
    assert("blob"@[0] == 'b');
    assert("camera_id"@.len() == 9);
    assert("camera_id"@[0] == 'c');
    assert("max_height"@.len() == 10);
    assert("max_height"@[0] == 'm');
    assert("max_width"@.len() == 9);
    assert("max_width"@[0] == 'm');
    assert("is_color"@.len() == 8);
    assert("is_color"@[0] == 'i');
    assert("bayer_pattern"@.len() == 13);
    assert("bayer_pattern"@[0] == 'b');
    assert("supported_bins"@.len() == 14);
    assert("supported_bins"@[0] == 's');
    assert("supported_video_formats"@.len() == 23);
    assert("supported_video_formats"@[0] == 's');
    assert("pixel_size"@.len() == 10);
    assert("pixel_size"@[0] == 'p');
    assert("has_shutter"@.len() == 11);
    assert("has_shutter"@[0] == 'h');
    assert("st4"@.len() == 3);
    assert("st4"@[0] == 's');
    assert("elec_per_adu"@.len() == 12);
    assert("elec_per_adu"@[0] == 'e');
    assert("bit_depth"@.len() == 9);
    assert("bit_depth"@[0] == 'b');
    assert("ls_rand_id"@.len() == 10);
    assert("ls_rand_id"@[0] == 'l');
    assert("width"@.len() == 5);
    assert("width"@[0] == 'w');
    assert("height"@.len() == 6);
    assert("height"@[0] == 'h');
    assert("bin"@.len() == 3);
    assert("bin"@[0] == 'b');
    assert("image_type"@.len() == 10);
    assert("image_type"@[0] == 'i');
    let l = camera_base_list(info, roi);
    assert forall|a: int, b: int| 0 <= a < b < 20 implies (#[trigger] l[a]).name != (
    #[trigger] l[b]).name by {
        if a == 0 {
            assert(l[a].name == "exposure_status"@);
        }
        else if a == 1 {
            assert(l[a].name == "exposing"@);
        }
        else if a == 2 {
            assert(l[a].name == "blob"@);
        }
        else if a == 3 {
            assert(l[a].name == "camera_id"@);
        }
        else if a == 4 {
            assert(l[a].name == "max_height"@);
        }
        else if a == 5 {
            assert(l[a].name == "max_width"@);
        }
        else if a == 6 {
            assert(l[a].name == "is_color"@);
        }
        else if a == 7 {
            assert(l[a].name == "bayer_pattern"@);
        }
        else if a == 8 {
            assert(l[a].name == "supported_bins"@);
        }
        else if a == 9 {
            assert(l[a].name == "supported_video_formats"@);
        }
        else if a == 10 {
            assert(l[a].name == "pixel_size"@);
        }
        else if a == 11 {
            assert(l[a].name == "has_shutter"@);
        }
        else if a == 12 {
            assert(l[a].name == "st4"@);
        }
        else if a == 13 {
            assert(l[a].name == "elec_per_adu"@);
        }
        else if a == 14 {
            assert(l[a].name == "bit_depth"@);
        }
        else if a == 15 {
            assert(l[a].name == "ls_rand_id"@);
        }
        else if a == 16 {
            assert(l[a].name == "width"@);
        }
        else if a == 17 {
            assert(l[a].name == "height"@);
        }
        else if a == 18 {
            assert(l[a].name == "bin"@);
        }
        else if a == 19 {
            assert(l[a].name == "image_type"@);
        }
        if b == 0 {
            assert(l[b].name == "exposure_status"@);
        }
        else if b == 1 {
            assert(l[b].name == "exposing"@);
        }
        else if b == 2 {
            assert(l[b].name == "blob"@);
        }
        else if b == 3 {
            assert(l[b].name == "camera_id"@);
        }
        else if b == 4 {
            assert(l[b].name == "max_height"@);
        }
        else if b == 5 {
            assert(l[b].name == "max_width"@);
        }
        else if b == 6 {
            assert(l[b].name == "is_color"@);
        }
        else if b == 7 {
            assert(l[b].name == "bayer_pattern"@);
        }
        else if b == 8 {
            assert(l[b].name == "supported_bins"@);
        }
        else if b == 9 {
            assert(l[b].name == "supported_video_formats"@);
        }
        else if b == 10 {
            assert(l[b].name == "pixel_size"@);
        }
        else if b == 11 {
            assert(l[b].name == "has_shutter"@);
        }
        else if b == 12 {
            assert(l[b].name == "st4"@);
        }
        else if b == 13 {
            assert(l[b].name == "elec_per_adu"@);
        }
        else if b == 14 {
            assert(l[b].name == "bit_depth"@);
        }
        else if b == 15 {
            assert(l[b].name == "ls_rand_id"@);
        }
        else if b == 16 {
            assert(l[b].name == "width"@);
        }
        else if b == 17 {
            assert(l[b].name == "height"@);
        }
        else if b == 18 {
            assert(l[b].name == "bin"@);
        }
        else if b == 19 {
            assert(l[b].name == "image_type"@);
        }
    }
}

/// Build the first half of a fresh camera store's built-in entries:
/// the exposure bookkeeping and the fixed attributes through the
/// supported video formats.
#[verifier::rlimit(100)]
fn camera_base_store_head(info: &CameraInfo, roi: ROIFormat) -> (store: PropertyStore)
    ensures
        store.wf(),
        has_text_prop(store@, "exposure_status"@),
        store@ == added_props_from(Seq::empty(), camera_base_list(info@, roi), 10),
{
        let ghost base = camera_base_list(info@, roi);
        let mut store = PropertyStore::new();

        // exposure bookkeeping first, so its entries are pinned at the front
        add_extra(
            &mut store,
            new_read_only_prop("exposure_status", PropValue::Text(String::from_str("IDLE")), PropKind::Text),
        );
        proof {
            assert(added_props_from(Seq::empty(), base, 0) == Seq::<PropModel>::empty());
            assert(store@ == added_props_from(Seq::empty(), base, 1));
            assert(has_text_prop(store@, "exposure_status"@));
        }
        add_extra(&mut store, new_read_only_prop("exposing", PropValue::Bool(false), PropKind::Boolean));
        proof {
            assert(store@ == added_props_from(Seq::empty(), base, 2));
        }
        add_extra(&mut store, new_read_only_prop("blob", PropValue::Text(String::new()), PropKind::Bytes));
        proof {
            assert(store@ == added_props_from(Seq::empty(), base, 3));
    }

        // the camera's fixed attributes
        add_extra(
            &mut store,
            new_read_only_prop("camera_id", PropValue::Int(info.camera_id as i64), PropKind::Integer),
        );
        proof {
            assert(store@ == added_props_from(Seq::empty(), base, 4));
        }
        add_extra(
            &mut store,
            new_read_only_prop("max_height", PropValue::Int(info.max_height), PropKind::Integer),
        );
        proof {
            assert(store@ == added_props_from(Seq::empty(), base, 5));
        }
        add_extra(
            &mut store,
            new_read_only_prop("max_width", PropValue::Int(info.max_width), PropKind::Integer),
        );
        proof {
            assert(store@ == added_props_from(Seq::empty(), base, 6));
        }
        add_extra(
            &mut store,
            new_read_only_prop("is_color", PropValue::Bool(info.is_color), PropKind::Boolean),
        );
        proof {
            assert(store@ == added_props_from(Seq::empty(), base, 7));
        }
        add_extra(
            &mut store,
            new_read_only_prop(
                "bayer_pattern",
                PropValue::Text(bayer_pattern_to_str(&info.bayer_pattern).to_owned()),
                PropKind::Text,
            ),
        );
        proof {
            assert(store@ == added_props_from(Seq::empty(), base, 8));
        }
        add_extra(
            &mut store,
            new_read_only_prop(
                "supported_bins",
                PropValue::Text(int_to_binning_str(info.supported_bins.as_slice())),
                PropKind::Array,
            ),
        );
        proof {
            assert(store@ == added_props_from(Seq::empty(), base, 9));
        }
        add_extra(
            &mut store,
            new_read_only_prop(
                "supported_video_formats",
                PropValue::Text(int_to_image_type_array(info.supported_video_format.as_slice())),
                PropKind::Array,
            ),
        );
        proof {
            assert(store@ == added_props_from(Seq::empty(), base, 10));
        }
        store
}

/// Build the twenty built-in entries of a fresh camera store, in
/// order: the store is exactly the base list folded in.
#[verifier::rlimit(100)]
fn camera_base_store(info: &CameraInfo, roi: ROIFormat) -> (store: PropertyStore)
    ensures
        store.wf(),
        has_text_prop(store@, "exposure_status"@),
        store@ == added_props_from(Seq::empty(), camera_base_list(info@, roi), 20),
{
        let ghost base = camera_base_list(info@, roi);
        let mut store = camera_base_store_head(info, roi);
        add_extra(
            &mut store,
            new_read_only_prop("pixel_size", PropValue::Text(info.pixel_size.clone()), PropKind::Float),
        );
        proof {
            assert(store@ == added_props_from(Seq::empty(), base, 11));
        }
        add_extra(
            &mut store,
            new_read_only_prop("has_shutter", PropValue::Bool(info.has_shutter), PropKind::Boolean),
        );
        proof {
            assert(store@ == added_props_from(Seq::empty(), base, 12));
        }
        add_extra(&mut store, new_read_only_prop("st4", PropValue::Bool(info.st4), PropKind::Boolean));
        proof {
            assert(store@ == added_props_from(Seq::empty(), base, 13));
        }
        add_extra(
            &mut store,
            new_read_only_prop("elec_per_adu", PropValue::Text(info.elec_per_adu.clone()), PropKind::Float),
        );
        proof {
            assert(store@ == added_props_from(Seq::empty(), base, 14));
        }
        add_extra(
            &mut store,
            new_read_only_prop("bit_depth", PropValue::Int(info.bit_depth as i64), PropKind::Integer),
        );
        proof {
            assert(store@ == added_props_from(Seq::empty(), base, 15));
        }
        add_extra(
            &mut store,
            new_read_write_prop("ls_rand_id", PropValue::Text(info.ls_rand_id.clone()), PropKind::Text),
        );
        proof {
            assert(store@ == added_props_from(Seq::empty(), base, 16));
    }

        // the region-of-interest entries; writes to width and height
        // go through to the hardware
        add_extra(
            &mut store,
            Property {
                name: String::from_str("width"),
                value: PropValue::Int(roi.width as i64),
                kind: PropKind::Integer,
                permission: Permission::ReadWrite,
                bounds: Some((0, info.max_width)),
                target: HwTarget::RoiWidth,
            },
        );
        proof {
            assert(store@ == added_props_from(Seq::empty(), base, 17));
        }
        add_extra(
            &mut store,
            Property {
                name: String::from_str("height"),
                value: PropValue::Int(roi.height as i64),
                kind: PropKind::Integer,
                permission: Permission::ReadWrite,
                bounds: Some((0, info.max_height)),
                target: HwTarget::RoiHeight,
            },
        );
        proof {
            assert(store@ == added_props_from(Seq::empty(), base, 18));
        }
        let bin_arr: [i32; 1] = [roi.bin];
        add_extra(
            &mut store,
            new_read_write_prop(
                "bin",
                PropValue::Text(int_to_binning_str(bin_arr.as_slice())),
                PropKind::Text,
            ),
        );
        proof {
            assert(bin_arr@ =~= seq![roi.bin]);
            assert(store@ == added_props_from(Seq::empty(), base, 19));
        }
        add_extra(
            &mut store,
            new_read_write_prop("image_type", PropValue::Text(int_to_image_type(roi.img_type)), PropKind::Text),
        );
        proof {
            assert(store@ == added_props_from(Seq::empty(), base, 20));
        }
        store
}

impl Device {
    /// Build a camera device from what the hardware reported at
    /// discovery: its fixed attributes, its control capabilities with
    /// their current values, and the region-of-interest format.
    ///
    /// Mirrors the camera's startup sequence: the exposure
    /// bookkeeping entries come first (`exposure_status` at `IDLE`,
    /// `exposing` false, `blob` empty), then the fixed attributes,
    /// the four region-of-interest entries rendered from the cache,
    /// and one entry per control capability; the store is exactly
    /// [`camera_props`] of what was reported.
    #[verifier::rlimit(100)]
    pub fn new_camera(
        info: &CameraInfo,
        caps: &Vec<AsiProperty>,
        cap_values: &Vec<i64>,
        roi: ROIFormat,
    ) -> (r: Device)
        requires
            caps@.len() == cap_values@.len(),
        ensures
            r.wf(),
            r.has_exposure_status(),
            r.exposure == ExposureState::Idle,
            r.capture is None,
            r.index == info.camera_id,
            r.name@ == info.name@,
            r.roi == roi,
            r.id@.len() == 36,
            r.store@ == camera_props(info@, cap_views(caps@), val_views(cap_values@), roi),
            store_has(r.store@, camera_base_list(info@, roi)[0]),
            store_has(r.store@, camera_base_list(info@, roi)[1]),
            store_has(r.store@, camera_base_list(info@, roi)[2]),
            store_has(r.store@, camera_base_list(info@, roi)[16]),
            store_has(r.store@, camera_base_list(info@, roi)[17]),
            store_has(r.store@, camera_base_list(info@, roi)[18]),
            store_has(r.store@, camera_base_list(info@, roi)[19]),
    {
        let ghost base = camera_base_list(info@, roi);
        let mut store = camera_base_store(info, roi);
        let ghost base_built = store@;

        // one entry per control capability, with its current value
        let ghost ctrl = control_prop_list(cap_views(caps@), val_views(cap_values@));
        let n: usize = caps.len();
        let mut k: usize = 0;
        while k < n
            invariant
                0 <= k <= n,
                n == caps@.len(),
                caps@.len() == cap_values@.len(),
                store.wf(),
                has_text_prop(store@, "exposure_status"@),
                ctrl == control_prop_list(cap_views(caps@), val_views(cap_values@)),
                base_built == added_props_from(
                    Seq::empty(),
                    camera_base_list(info@, roi),
                    20,
                ),
                store@ == added_props_from(base_built, ctrl, k as int),
            decreases n - k,
        {
            let cap = &caps[k];
            let permission = if cap.is_writable {
                Permission::ReadWrite
            } else {
                Permission::ReadOnly
            };
            // the temperature arrives in tenths of a degree and is
            // shown as a decimal; every other control is an integer
            let p = if str_eq(cap.name.as_str(), "temperature") {
                Property {
                    name: cap.name.clone(),
                    value: PropValue::Text(tenths_to_string(cap_values[k])),
                    kind: PropKind::Float,
                    permission,
                    bounds: None,
                    target: HwTarget::Control(cap.control_type),
                }
            } else {
                Property {
                    name: cap.name.clone(),
                    value: PropValue::Int(cap_values[k]),
                    kind: PropKind::Integer,
                    permission,
                    bounds: Some((cap.min_value, cap.max_value)),
                    target: HwTarget::Control(cap.control_type),
                }
            };
            proof {
                assert(p@ == ctrl[k as int]);
            }
            add_extra(&mut store, p);
            k = k + 1;
        }

        proof {
            lemma_camera_base_distinct(info@, roi);
            assert forall|a: int, b: int| 0 <= a < b < 20 implies (#[trigger] base[a]).name != (
            #[trigger] base[b]).name by {
                assert(camera_base_list(info@, roi)[a] == base[a]);
                assert(camera_base_list(info@, roi)[b] == base[b]);
            }
            assert forall|j: int| 0 <= j < base.len() implies spec_find(
                Seq::<PropModel>::empty(),
                (#[trigger] base[j]).name,
            ) is None by {}
            lemma_added_from_all_new(Seq::empty(), base, 20);
            assert(base_built =~= base);
            crate::props::lemma_spec_find_at(base, base[0].name, 0);
            crate::props::lemma_spec_find_at(base, base[1].name, 1);
            crate::props::lemma_spec_find_at(base, base[2].name, 2);
            crate::props::lemma_spec_find_at(base, base[16].name, 16);
            crate::props::lemma_spec_find_at(base, base[17].name, 17);
            crate::props::lemma_spec_find_at(base, base[18].name, 18);
            crate::props::lemma_spec_find_at(base, base[19].name, 19);
            lemma_added_from_keeps(base_built, ctrl, n as int, base[0]);
            lemma_added_from_keeps(base_built, ctrl, n as int, base[1]);
            lemma_added_from_keeps(base_built, ctrl, n as int, base[2]);
            lemma_added_from_keeps(base_built, ctrl, n as int, base[16]);
            lemma_added_from_keeps(base_built, ctrl, n as int, base[17]);
            lemma_added_from_keeps(base_built, ctrl, n as int, base[18]);
            lemma_added_from_keeps(base_built, ctrl, n as int, base[19]);
        }

        Device {
            id: new_device_id(),
            name: info.name.clone(),
            store,
            index: info.camera_id,
            roi,
            exposure: ExposureState::Idle,
            capture: None,
        }
    }

    /// Build a filter wheel device: `available_slots`, the writable
    /// `actual_slot` and `unidirectional`, and the `calibration`
    /// marker at `off` — the store is exactly [`efw_props`] of what
    /// was reported.  The slot bounds stay the driver's fixed 1..=5
    /// whatever the slot count, as this driver has always had them.
    pub fn new_efw(efw_id: i32, name: &str, slots: i32, position: i32, unidirectional: bool) -> (r:
        Device)
        ensures
            r.wf(),
            r.exposure == ExposureState::Idle,
            r.capture is None,
            r.index == efw_id,
            r.name@ == "ZWO "@ + name@,
            r.id@.len() == 36,
            r.store@ == efw_props(slots as int, position as int, unidirectional),
            store_has(r.store@, efw_props(slots as int, position as int, unidirectional)[0]),
            store_has(r.store@, efw_props(slots as int, position as int, unidirectional)[1]),
            store_has(r.store@, efw_props(slots as int, position as int, unidirectional)[2]),
            store_has(r.store@, efw_props(slots as int, position as int, unidirectional)[3]),
            has_text_prop(r.store@, "calibration"@),
    {
        let ghost base = efw_props(slots as int, position as int, unidirectional);
        let mut store = PropertyStore::new();
        add_extra(
            &mut store,
            new_read_only_prop("available_slots", PropValue::Int(slots as i64), PropKind::Integer),
        );
        proof {
            assert(added_props_from(Seq::empty(), base, 0) == Seq::<PropModel>::empty());
            assert(store@ == added_props_from(Seq::empty(), base, 1));
        }
        add_extra(
            &mut store,
            Property {
                name: String::from_str("actual_slot"),
                value: PropValue::Int(position as i64),
                kind: PropKind::Integer,
                permission: Permission::ReadWrite,
                bounds: Some((1, 5)),
                target: HwTarget::Position,
            },
        );
        proof {
            assert(store@ == added_props_from(Seq::empty(), base, 2));
        }
        add_extra(
            &mut store,
            Property {
                name: String::from_str("unidirectional"),
                value: PropValue::Bool(unidirectional),
                kind: PropKind::Boolean,
                permission: Permission::ReadWrite,
                bounds: None,
                target: HwTarget::Unidirection,
            },
        );
        proof {
            assert(store@ == added_props_from(Seq::empty(), base, 3));
        }
        add_extra(
            &mut store,
            new_read_only_prop("calibration", PropValue::Text(String::from_str("off")), PropKind::Text),
        );
        proof {
            assert(store@ == added_props_from(Seq::empty(), base, 4));
            reveal_strlit("available_slots");
            reveal_strlit("actual_slot");
            reveal_strlit("unidirectional");
            reveal_strlit("calibration");
            assert("available_slots"@.len() == 15);
            assert("actual_slot"@.len() == 11);
            assert("actual_slot"@[0] == 'a');
            assert("unidirectional"@.len() == 14);
            assert("calibration"@.len() == 11);
            assert("calibration"@[0] == 'c');
            assert forall|a: int, b: int| 0 <= a < b < 4 implies (#[trigger] base[a]).name != (
            #[trigger] base[b]).name by {
                assert(base[0].name == "available_slots"@);
                assert(base[1].name == "actual_slot"@);
                assert(base[2].name == "unidirectional"@);
                assert(base[3].name == "calibration"@);
            }
            assert forall|j: int| 0 <= j < base.len() implies spec_find(
                Seq::<PropModel>::empty(),
                (#[trigger] base[j]).name,
            ) is None by {}
            lemma_added_from_all_new(Seq::empty(), base, 4);
            assert(store@ =~= base);
            crate::props::lemma_spec_find_at(base, base[0].name, 0);
            crate::props::lemma_spec_find_at(base, base[1].name, 1);
            crate::props::lemma_spec_find_at(base, base[2].name, 2);
            crate::props::lemma_spec_find_at(base, base[3].name, 3);
        }

        let mut full_name = String::from_str("ZWO ");
        full_name.append(name);

        Device {
            id: new_device_id(),
            name: full_name,
            store,
            index: efw_id,
            roi: ROIFormat { width: 0, height: 0, bin: 0, img_type: 0 },
            exposure: ExposureState::Idle,
            capture: None,
        }
    }
}


/// One control reading the polling loop gathered from the hardware.
pub struct ControlReading {
    pub name: String,
    pub value: i64,
}

/// The mathematical value of a [`ControlReading`].
pub ghost struct ReadingModel {
    pub name: Seq<char>,
    pub value: int,
}

impl View for ControlReading {
    type V = ReadingModel;

    open spec fn view(&self) -> ReadingModel {
        ReadingModel { name: self.name@, value: self.value as int }
    }
}

/// The models of a sequence of readings.
pub open spec fn reading_views(rs: Seq<ControlReading>) -> Seq<ReadingModel> {
    Seq::new(rs.len(), |i: int| rs[i]@)
}

/// The value a hardware reading writes into an entry: an integer
/// control stores the integer itself; a control displayed as decimal
/// text (the temperature, reported in tenths) stores the rendered
/// decimal.  Any other entry is not hardware-refreshable.
pub open spec fn reading_written(p: PropModel, v: int) -> Option<ValueModel> {
    if p.value is Int {
        Some(ValueModel::Int(v))
    } else if p.value is Text && p.kind == PropKind::Float && p.target is Control {
        Some(ValueModel::Text(tenths_chars(v)))
    } else {
        None
    }
}

/// One refresh step: set the named entry to the value the hardware
/// reported.  Entries with no hardware rendering, and unknown names,
/// are left alone.
pub open spec fn apply_reading(props: Seq<PropModel>, r: ReadingModel) -> Seq<PropModel> {
    match spec_find(props, r.name) {
        Some(i) => match reading_written(props[i], r.value) {
            Some(v) => props.update(i, PropModel { value: v, ..props[i] }),
            None => props,
        },
        None => props,
    }
}

/// Whether a reading disagrees with the stored value, so a refresh
/// would actually write.
pub open spec fn reading_differs(props: Seq<PropModel>, r: ReadingModel) -> bool {
    match spec_find(props, r.name) {
        Some(i) => match reading_written(props[i], r.value) {
            Some(v) => props[i].value != v,
            None => false,
        },
        None => false,
    }
}

/// The store after the readings from position `k` on are applied.
pub open spec fn spec_refresh(props: Seq<PropModel>, rs: Seq<ReadingModel>, k: int) -> Seq<
    PropModel,
>
    decreases rs.len() - k,
{
    if k < 0 || k >= rs.len() {
        props
    } else {
        spec_refresh(apply_reading(props, rs[k]), rs, k + 1)
    }
}

/// How many of the readings from position `k` on find a stored value
/// that differs, so that the refresh writes it.
pub open spec fn spec_refresh_count(props: Seq<PropModel>, rs: Seq<ReadingModel>, k: int) -> int
    decreases rs.len() - k,
{
    if k < 0 || k >= rs.len() {
        0
    } else {
        (if reading_differs(props, rs[k]) {
            1int
        } else {
            0int
        }) + spec_refresh_count(apply_reading(props, rs[k]), rs, k + 1)
    }
}

/// Whether two entries agree on everything but the value a refresh
/// may rewrite: same name, class, permission, bounds, target, and a
/// value of the same type.
pub open spec fn shape_eq(x: PropModel, y: PropModel) -> bool {
    &&& y.name == x.name
    &&& y.kind == x.kind
    &&& y.permission == x.permission
    &&& y.bounds == x.bounds
    &&& y.target == x.target
    &&& (y.value is Int <==> x.value is Int)
    &&& (y.value is Bool <==> x.value is Bool)
    &&& (y.value is Text <==> x.value is Text)
}

/// Whether a refresh could turn `a` into `b`: same length, every
/// entry of the same shape.
pub open spec fn same_shape(a: Seq<PropModel>, b: Seq<PropModel>) -> bool {
    &&& a.len() == b.len()
    &&& forall|i: int| 0 <= i < a.len() ==> shape_eq(#[trigger] a[i], #[trigger] b[i])
}

proof fn lemma_apply_shape(props: Seq<PropModel>, r: ReadingModel)
    ensures
        same_shape(props, apply_reading(props, r)),
{
    crate::props::lemma_spec_find_found(props, r.name);
}

proof fn lemma_find_same_shape(a: Seq<PropModel>, b: Seq<PropModel>, name: Seq<char>)
    requires
        same_shape(a, b),
    ensures
        spec_find(a, name) == spec_find(b, name),
{
    assert(forall|i: int| 0 <= i < a.len() ==> (#[trigger] a[i]).name == b[i].name);
    crate::props::lemma_spec_find_same_names(a, b, name);
}

proof fn lemma_refresh_shape(props: Seq<PropModel>, rs: Seq<ReadingModel>, k: int)
    ensures
        same_shape(props, spec_refresh(props, rs, k)),
    decreases rs.len() - k,
{
    if 0 <= k < rs.len() {
        let p2 = apply_reading(props, rs[k]);
        lemma_apply_shape(props, rs[k]);
        lemma_refresh_shape(p2, rs, k + 1);
        let r = spec_refresh(props, rs, k);
        assert forall|i: int| 0 <= i < props.len() implies shape_eq(
            #[trigger] props[i],
            #[trigger] r[i],
        ) by {
            assert(shape_eq(props[i], p2[i]));
            assert(shape_eq(p2[i], spec_refresh(p2, rs, k + 1)[i]));
        }
    }
}

/// An entry none of the remaining readings name is left untouched by
/// the refresh.
proof fn lemma_refresh_preserves_entry(
    props: Seq<PropModel>,
    rs: Seq<ReadingModel>,
    k: int,
    i: int,
)
    requires
        0 <= i < props.len(),
        forall|j: int| k <= j < rs.len() ==> (#[trigger] rs[j]).name != props[i].name,
    ensures
        spec_refresh(props, rs, k)[i] == props[i],
    decreases rs.len() - k,
{
    if 0 <= k < rs.len() {
        let p2 = apply_reading(props, rs[k]);
        crate::props::lemma_spec_find_found(props, rs[k].name);
        assert(p2[i] == props[i]);
        lemma_refresh_preserves_entry(p2, rs, k + 1, i);
    }
}

/// After a refresh, every remaining reading's entry holds exactly
/// the value that reading writes.
proof fn lemma_refresh_sets(props: Seq<PropModel>, rs: Seq<ReadingModel>, k: int, j: int)
    requires
        0 <= k <= j < rs.len(),
        forall|a: int, b: int|
            k <= a < b < rs.len() ==> (#[trigger] rs[a]).name != (#[trigger] rs[b]).name,
    ensures
        match spec_find(props, rs[j].name) {
            Some(i) => match reading_written(props[i], rs[j].value) {
                Some(v) => spec_refresh(props, rs, k)[i].value == v,
                None => true,
            },
            None => true,
        },
    decreases rs.len() - k,
{
    let p2 = apply_reading(props, rs[k]);
    crate::props::lemma_spec_find_found(props, rs[k].name);
    lemma_apply_shape(props, rs[k]);
    if j == k {
        match spec_find(props, rs[k].name) {
            Some(i) => {
                match reading_written(props[i], rs[k].value) {
                    Some(v) => {
                        assert(p2[i].value == v);
                        assert(p2[i].name == props[i].name);
                        assert(props[i].name == rs[k].name);
                        assert(forall|j2: int|
                            k + 1 <= j2 < rs.len() ==> (#[trigger] rs[j2]).name != p2[i].name);
                        lemma_refresh_preserves_entry(p2, rs, k + 1, i);
                    },
                    None => {},
                }
            },
            None => {},
        }
    } else {
        lemma_refresh_sets(p2, rs, k + 1, j);
        lemma_find_same_shape(props, p2, rs[j].name);
        crate::props::lemma_spec_find_found(props, rs[j].name);
        assert(spec_refresh(props, rs, k) == spec_refresh(p2, rs, k + 1));
        match spec_find(props, rs[j].name) {
            Some(i) => {
                assert(spec_find(p2, rs[j].name) == Some(i));
                assert(reading_written(p2[i], rs[j].value) == reading_written(
                    props[i],
                    rs[j].value,
                ));
            },
            None => {},
        }
    }
}

proof fn lemma_refresh_idempotent_aux(props: Seq<PropModel>, rs: Seq<ReadingModel>, k: int)
    requires
        forall|a: int, b: int|
            k <= a < b < rs.len() ==> (#[trigger] rs[a]).name != (#[trigger] rs[b]).name,
    ensures
        spec_refresh(spec_refresh(props, rs, k), rs, k) == spec_refresh(props, rs, k),
        spec_refresh_count(spec_refresh(props, rs, k), rs, k) == 0,
    decreases rs.len() - k,
{
    if 0 <= k < rs.len() {
        let p2 = apply_reading(props, rs[k]);
        let big = spec_refresh(props, rs, k);
        assert(big == spec_refresh(p2, rs, k + 1));
        lemma_refresh_idempotent_aux(p2, rs, k + 1);
        lemma_refresh_shape(props, rs, k);
        lemma_find_same_shape(props, big, rs[k].name);
        crate::props::lemma_spec_find_found(props, rs[k].name);
        match spec_find(props, rs[k].name) {
            Some(i) => {
                assert(reading_written(big[i], rs[k].value) == reading_written(
                    props[i],
                    rs[k].value,
                ));
                match reading_written(props[i], rs[k].value) {
                    Some(v) => {
                        lemma_refresh_sets(props, rs, k, k);
                        assert(big[i].value == v);
                        assert(apply_reading(big, rs[k]) =~= big);
                    },
                    None => {
                        assert(apply_reading(big, rs[k]) == big);
                    },
                }
            },
            None => {
                assert(apply_reading(big, rs[k]) == big);
            },
        }
        assert(!reading_differs(big, rs[k]));
        assert(spec_refresh(big, rs, k) == spec_refresh(big, rs, k + 1));
        assert(spec_refresh_count(big, rs, k) == spec_refresh_count(big, rs, k + 1));
    }
}

/// Refreshing twice in a row from the same hardware readings mutates
/// nothing the second time: the first pass left every named entry in
/// agreement, so the second pass finds no difference and writes no
/// entry at all.  (Readings name each control once.)
pub proof fn lemma_refresh_idempotent(props: Seq<PropModel>, rs: Seq<ReadingModel>)
    requires
        forall|a: int, b: int|
            0 <= a < b < rs.len() ==> (#[trigger] rs[a]).name != (#[trigger] rs[b]).name,
    ensures
        spec_refresh(spec_refresh(props, rs, 0), rs, 0) == spec_refresh(props, rs, 0),
        spec_refresh_count(spec_refresh(props, rs, 0), rs, 0) == 0,
{
    lemma_refresh_idempotent_aux(props, rs, 0);
}

impl Device {
    /// Refresh the store from the control values the polling loop
    /// just read from the hardware.  Only entries whose value
    /// actually differs are written, so cached snapshots are not
    /// needlessly invalidated; the count of entries written comes
    /// back.
    pub fn fetch_props(&mut self, readings: &Vec<ControlReading>) -> (changed: usize)
        requires
            old(self).wf(),
        ensures
            final(self).wf(),
            final(self).id == old(self).id,
            final(self).name == old(self).name,
            final(self).index == old(self).index,
            final(self).roi == old(self).roi,
            final(self).exposure == old(self).exposure,
            final(self).capture == old(self).capture,
            final(self).has_exposure_status() == old(self).has_exposure_status(),
            final(self).store@ == spec_refresh(old(self).store@, reading_views(readings@), 0),
            changed == spec_refresh_count(old(self).store@, reading_views(readings@), 0),
    {
        let ghost rs = reading_views(readings@);
        let n: usize = readings.len();
        let mut k: usize = 0;
        let mut changed: usize = 0;
        while k < n
            invariant
                0 <= k <= n,
                n == readings@.len(),
                rs == reading_views(readings@),
                self.store.wf(),
                self.id == old(self).id,
                self.name == old(self).name,
                self.index == old(self).index,
                self.roi == old(self).roi,
                self.exposure == old(self).exposure,
                self.capture == old(self).capture,
                old(self).wf(),
                has_text_prop(self.store@, "exposure_status"@) == has_text_prop(
                    old(self).store@,
                    "exposure_status"@,
                ),
                spec_refresh(old(self).store@, rs, 0) == spec_refresh(self.store@, rs, k as int),
                spec_refresh_count(old(self).store@, rs, 0) == changed + spec_refresh_count(
                    self.store@,
                    rs,
                    k as int,
                ),
                changed <= k,
            decreases n - k,
        {
            let ghost pre = self.store@;
            let rd = &readings[k];
            proof {
                assert(rs[k as int] == rd@);
            }
            match self.store.find_property_index(rd.name.as_str()) {
                Some(i) => {
                    let p = self.store.get_at(i);
                    let is_rendered_control: bool = matches!(p.kind, PropKind::Float) && matches!(
                        p.target,
                        HwTarget::Control(_),
                    );
                    match &p.value {
                        PropValue::Int(cur) => {
                            if *cur != rd.value {
                                self.store.set_value_at(i, PropValue::Int(rd.value));
                                changed = changed + 1;
                            } else {
                                proof {
                                    assert(apply_reading(pre, rs[k as int]) =~= pre);
                                }
                            }
                        },
                        PropValue::Text(cur) => {
                            if is_rendered_control {
                                let rendered = tenths_to_string(rd.value);
                                if !str_eq(cur.as_str(), rendered.as_str()) {
                                    self.store.set_value_at(i, PropValue::Text(rendered));
                                    changed = changed + 1;
                                } else {
                                    proof {
                                        assert(apply_reading(pre, rs[k as int]) =~= pre);
                                    }
                                }
                            }
                        },
                        _ => {},
                    }
                },
                None => {},
            }
            proof {
                assert(self.store@ == apply_reading(pre, rs[k as int]));
                crate::props::lemma_spec_find_found(pre, rs[k as int].name);
                match spec_find(pre, rs[k as int].name) {
                    Some(i2) => {
                        match reading_written(pre[i2], rs[k as int].value) {
                            Some(v2) => {
                                lemma_has_text_prop_after_update(
                                    pre,
                                    i2,
                                    PropModel { value: v2, ..pre[i2] },
                                    "exposure_status"@,
                                );
                            },
                            None => {},
                        }
                    },
                    None => {},
                }
            }
            k = k + 1;
        }
        changed
    }
}

} // verus!
