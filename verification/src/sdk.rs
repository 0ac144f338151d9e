//! The C record shapes the vendor SDK fills, and their translation
//! into the driver's own types.
//!
//! The SDK hands back fixed-size, zero-terminated name arrays and
//! integer-coded capability records; this module turns them into
//! validated text and [`AsiProperty`] capability descriptions.

#![allow(non_camel_case_types)]
#![allow(non_snake_case)]

use vstd::prelude::*;
use convert_case::Casing;
use crate::utils::{asi_name_to_string, name_chars};

verus! {

/// The eight-byte camera id slot, as the SDK reads and writes it.
pub struct _ASI_ID {
    pub id: [u8; 8],
}

/// The SDK's id record is also known under this alias.
pub type AsiID = _ASI_ID;

impl _ASI_ID {
    /// A blank id, ready for the SDK to fill.
    pub fn new() -> (r: Self)
        ensures
            r.id@ =~= Seq::new(8, |i: int| 0u8),
    {
        let r = Self { id: [0; 8] };
        proof {
            assert(r.id@ =~= Seq::new(8, |i: int| 0u8));
        }
        r
    }
}

/// One control capability record, as the SDK fills it.
pub struct _ASI_CONTROL_CAPS {
    pub Name: [i8; 64],
    pub Description: [i8; 128],
    pub MaxValue: i64,
    pub MinValue: i64,
    pub DefaultValue: i64,
    pub IsAutoSupported: u32,
    pub IsWritable: u32,
    pub ControlType: u32,
    pub Unused: [u8; 32],
}

/// The SDK's capability record is also known under this alias.
pub type AsiControlCaps = _ASI_CONTROL_CAPS;

impl _ASI_CONTROL_CAPS {
    /// A zeroed record, ready for the SDK to fill.
    pub fn new() -> (r: Self)
        ensures
            r.Name@ =~= Seq::new(64, |i: int| 0i8),
            r.Description@ =~= Seq::new(128, |i: int| 0i8),
            r.MaxValue == 0,
            r.MinValue == 0,
            r.DefaultValue == 0,
            r.IsAutoSupported == 0,
            r.IsWritable == 0,
            r.ControlType == 0,
    {
        let r = Self {
            Name: [0; 64],
            Description: [0; 128],
            MaxValue: 0,
            MinValue: 0,
            DefaultValue: 0,
            IsAutoSupported: 0,
            IsWritable: 0,
            ControlType: 0,
            Unused: [0; 32],
        };
        proof {
            assert(r.Name@ =~= Seq::new(64, |i: int| 0i8));
            assert(r.Description@ =~= Seq::new(128, |i: int| 0i8));
        }
        r
    }
}

/// The filter wheel id slot.
pub struct _EFW_ID {
    pub id: [u8; 8],
}

pub type EfwID = _EFW_ID;

impl _EFW_ID {
    /// A blank id, ready for the SDK to fill.
    pub fn new() -> (r: Self)
        ensures
            r.id@ =~= Seq::new(8, |i: int| 0u8),
    {
        let r = Self { id: [0; 8] };
        proof {
            assert(r.id@ =~= Seq::new(8, |i: int| 0u8));
        }
        r
    }
}

/// The filter wheel description record, as the SDK fills it.
pub struct _EFW_INFO {
    pub ID: i32,
    pub Name: [i8; 64],
    pub slotNum: i32,
}

pub type EFWInfo = _EFW_INFO;

impl _EFW_INFO {
    /// A zeroed record, ready for the SDK to fill.
    pub fn new() -> (r: Self)
        ensures
            r.ID == 0,
            r.Name@ =~= Seq::new(64, |i: int| 0i8),
            r.slotNum == 0,
    {
        let r = Self { ID: 0, Name: [0; 64], slotNum: 0 };
        proof {
            assert(r.Name@ =~= Seq::new(64, |i: int| 0i8));
        }
        r
    }
}

/// One control capability of a camera, in the driver's own terms.
#[derive(Debug)]
pub struct AsiProperty {
    pub name: String,
    pub description: String,
    pub max_value: i64,
    pub min_value: i64,
    pub default_value: i64,
    pub is_auto_supported: bool,
    pub is_writable: bool,
    pub control_type: i32,
}

/// The mathematical value of an [`AsiProperty`].
pub ghost struct AsiPropertyModel {
    pub name: Seq<char>,
    pub description: Seq<char>,
    pub max_value: int,
    pub min_value: int,
    pub default_value: int,
    pub is_auto_supported: bool,
    pub is_writable: bool,
    pub control_type: int,
}

impl View for AsiProperty {
    type V = AsiPropertyModel;

    open spec fn view(&self) -> AsiPropertyModel {
        AsiPropertyModel {
            name: self.name@,
            description: self.description@,
            max_value: self.max_value as int,
            min_value: self.min_value as int,
            default_value: self.default_value as int,
            is_auto_supported: self.is_auto_supported,
            is_writable: self.is_writable,
            control_type: self.control_type as int,
        }
    }
}

/// The snake_case rendering of a capability name; it depends on the
/// characters alone.
pub uninterp spec fn snake_of(s: Seq<char>) -> Seq<char>;

/// Relies on convert_case's `Casing::to_case` with `Case::Snake`: the
/// snake_case rendering of the text, a function of its characters
/// alone.
#[verifier::external_body]
fn to_snake_case(s: &str) -> (r: String)
    ensures
        r@ == snake_of(s@),
{
    s.to_case(convert_case::Case::Snake)
}

/// Translate a capability record into the driver's capability
/// description: the name decoded and folded to snake_case, the numeric
/// fields taken as they are, the flags read as booleans.
pub fn caps_to_asi_property(caps: &_ASI_CONTROL_CAPS) -> (r: AsiProperty)
    requires
        caps.ControlType <= i32::MAX,
    ensures
        r.name@ == snake_of(name_chars(caps.Name@)),
        r.description@ == name_chars(caps.Description@),
        r.max_value == caps.MaxValue,
        r.min_value == caps.MinValue,
        r.default_value == caps.DefaultValue,
        r.is_auto_supported == (caps.IsAutoSupported != 0),
        r.is_writable == (caps.IsWritable != 0),
        r.control_type == caps.ControlType as i32,
{
    let raw_name = asi_name_to_string(caps.Name.as_slice());
    AsiProperty {
        name: to_snake_case(raw_name.as_str()),
        description: asi_name_to_string(caps.Description.as_slice()),
        max_value: caps.MaxValue,
        min_value: caps.MinValue,
        default_value: caps.DefaultValue,
        is_auto_supported: caps.IsAutoSupported != 0,
        is_writable: caps.IsWritable != 0,
        control_type: caps.ControlType as i32,
    }
}

} // verus!
