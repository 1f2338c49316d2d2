#![allow(non_camel_case_types)]
//! Plain-value configuration types read by the decoding logic.
//!
//! The calibration coefficient blocks of the device configuration are
//! floating-point data consumed only by the (unverified) calibration
//! arithmetic, so they are not modelled here; the library holds the parts of
//! the configuration that its own decisions read.

#![allow(non_snake_case)]

use vstd::prelude::*;

verus! {

/// Sticky monitoring flags recorded by the device: each is set when the
/// corresponding limit was exceeded at least once during the recording.
#[derive(Debug, Copy, Clone, Default)]
pub struct Monitoring {
    pub Ovarpress: bool,
    pub Ovarheat: bool,
    pub CPUOvarheat: bool,
    pub OverPower: bool,
}

impl Monitoring {
    /// True when at least one monitoring flag is set.
    pub fn is_set(&self) -> (r: bool)
        ensures
            r == (self.Ovarpress || self.Ovarheat || self.CPUOvarheat || self.OverPower),
    {
        self.Ovarpress || self.Ovarheat || self.CPUOvarheat || self.OverPower
    }
}

/// Geometry of the logger's flash storage, loaded from the storage
/// configuration file; `FlashPageSize` is the page size the unpacker slices
/// the raw dump by.
#[derive(Debug, Copy, Clone)]
pub struct MemInfo {
    pub FlashPageSize: u32,
    pub FlashPages: u32,
    pub FlashUsedPages: u32,
}

/// Display unit of the calibrated pressure channel. The device encodes the
/// unit as a tag in its configuration; the reserved zero tag has no defined
/// multiplier and must be rejected when the configuration is loaded, so it
/// has no variant here.
#[derive(Debug, Copy, Clone, PartialEq, Eq, Structural)]
pub enum PressureMeassureUnits {
    Pa,
    Bar,
    At,
    mmH20,
    mHg,
    Atm,
    PSI,
}

impl PressureMeassureUnits {
    /// Label of the unit, as it is spelled in the report's column header.
    pub fn label(&self) -> (r: &'static str)
        ensures
            r@ == self.spec_label(),
    {
        proof {
            reveal_strlit("Pa");
            reveal_strlit("Bar");
            reveal_strlit("At");
            reveal_strlit("mmH20");
            reveal_strlit("mHg");
            reveal_strlit("Atm");
            reveal_strlit("PSI");
        }
        match self {
            PressureMeassureUnits::Pa => "Pa",
            PressureMeassureUnits::Bar => "Bar",
            PressureMeassureUnits::At => "At",
            PressureMeassureUnits::mmH20 => "mmH20",
            PressureMeassureUnits::mHg => "mHg",
            PressureMeassureUnits::Atm => "Atm",
            PressureMeassureUnits::PSI => "PSI",
        }
    }

    /// The label, character by character.
    pub open spec fn spec_label(&self) -> Seq<char> {
        match self {
            PressureMeassureUnits::Pa => "Pa"@,
            PressureMeassureUnits::Bar => "Bar"@,
            PressureMeassureUnits::At => "At"@,
            PressureMeassureUnits::mmH20 => "mmH20"@,
            PressureMeassureUnits::mHg => "mHg"@,
            PressureMeassureUnits::Atm => "Atm"@,
            PressureMeassureUnits::PSI => "PSI"@,
        }
    }
}

} // verus!
