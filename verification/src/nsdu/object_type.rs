//! The kinds of object that an object identifier can name.

use vstd::prelude::*;
use vstd::std_specs::convert::FromSpecImpl;

verus! {

/// The largest code that is set aside for standard object types; the codes
/// above it are left to vendors.
pub const MAX_STANDARD_OBJECT_TYPE: u32 = 127;

/// The type of an object. Every code has a variant: a code without a name
/// here is kept in `Reserved` if it is a standard code, else in `Proprietary`.
#[derive(Debug, Clone, Copy, PartialEq, Eq, Structural)]
pub enum ObjectType {
    AnalogInput,
    AnalogOutput,
    AnalogValue,
    BinaryInput,
    BinaryOutput,
    BinaryValue,
    Calendar,
    Command,
    Device,
    EventEnrollment,
    File,
    Group,
    Loop,
    MultiStateInput,
    MultiStateOutput,
    NotificationClass,
    Program,
    Schedule,
    Averaging,
    MultiStateValue,
    TrendLog,
    LifeSafetyPoint,
    LifeSafetyZone,
    Accumulator,
    PulseConverter,
    /// A standard code that has no name here.
    Reserved(u32),
    /// A code that is left to vendors.
    Proprietary(u32),
}

impl ObjectType {
    /// The object type that a code stands for.
    pub open spec fn spec_from_code(code: u32) -> ObjectType {
        match code {
            0 => ObjectType::AnalogInput,
            1 => ObjectType::AnalogOutput,
            2 => ObjectType::AnalogValue,
            3 => ObjectType::BinaryInput,
            4 => ObjectType::BinaryOutput,
            5 => ObjectType::BinaryValue,
            6 => ObjectType::Calendar,
            7 => ObjectType::Command,
            8 => ObjectType::Device,
            9 => ObjectType::EventEnrollment,
            10 => ObjectType::File,
            11 => ObjectType::Group,
            12 => ObjectType::Loop,
            13 => ObjectType::MultiStateInput,
            14 => ObjectType::MultiStateOutput,
            15 => ObjectType::NotificationClass,
            16 => ObjectType::Program,
            17 => ObjectType::Schedule,
            18 => ObjectType::Averaging,
            19 => ObjectType::MultiStateValue,
            20 => ObjectType::TrendLog,
            21 => ObjectType::LifeSafetyPoint,
            22 => ObjectType::LifeSafetyZone,
            23 => ObjectType::Accumulator,
            24 => ObjectType::PulseConverter,
            _ => if code <= MAX_STANDARD_OBJECT_TYPE {
                ObjectType::Reserved(code)
            } else {
                ObjectType::Proprietary(code)
            },
        }
    }

    /// The code of the object type.
    pub open spec fn spec_code(&self) -> u32 {
        match self {
            ObjectType::AnalogInput => 0,
            ObjectType::AnalogOutput => 1,
            ObjectType::AnalogValue => 2,
            ObjectType::BinaryInput => 3,
            ObjectType::BinaryOutput => 4,
            ObjectType::BinaryValue => 5,
            ObjectType::Calendar => 6,
            ObjectType::Command => 7,
            ObjectType::Device => 8,
            ObjectType::EventEnrollment => 9,
            ObjectType::File => 10,
            ObjectType::Group => 11,
            ObjectType::Loop => 12,
            ObjectType::MultiStateInput => 13,
            ObjectType::MultiStateOutput => 14,
            ObjectType::NotificationClass => 15,
            ObjectType::Program => 16,
            ObjectType::Schedule => 17,
            ObjectType::Averaging => 18,
            ObjectType::MultiStateValue => 19,
            ObjectType::TrendLog => 20,
            ObjectType::LifeSafetyPoint => 21,
            ObjectType::LifeSafetyZone => 22,
            ObjectType::Accumulator => 23,
            ObjectType::PulseConverter => 24,
            ObjectType::Reserved(code) => *code,
            ObjectType::Proprietary(code) => *code,
        }
    }

    /// The code of the object type.
    #[verifier::when_used_as_spec(spec_code)]
    pub fn code(&self) -> (r: u32)
        ensures
            r == self.spec_code(),
    {
        match self {
            ObjectType::AnalogInput => 0,
            ObjectType::AnalogOutput => 1,
            ObjectType::AnalogValue => 2,
            ObjectType::BinaryInput => 3,
            ObjectType::BinaryOutput => 4,
            ObjectType::BinaryValue => 5,
            ObjectType::Calendar => 6,
            ObjectType::Command => 7,
            ObjectType::Device => 8,
            ObjectType::EventEnrollment => 9,
            ObjectType::File => 10,
            ObjectType::Group => 11,
            ObjectType::Loop => 12,
            ObjectType::MultiStateInput => 13,
            ObjectType::MultiStateOutput => 14,
            ObjectType::NotificationClass => 15,
            ObjectType::Program => 16,
            ObjectType::Schedule => 17,
            ObjectType::Averaging => 18,
            ObjectType::MultiStateValue => 19,
            ObjectType::TrendLog => 20,
            ObjectType::LifeSafetyPoint => 21,
            ObjectType::LifeSafetyZone => 22,
            ObjectType::Accumulator => 23,
            ObjectType::PulseConverter => 24,
            ObjectType::Reserved(code) => *code,
            ObjectType::Proprietary(code) => *code,
        }
    }

    /// The object type is the one that its code stands for: a code that is
    /// kept in `Reserved` or `Proprietary` has no name and is in the range
    /// of that variant.
    pub open spec fn wf(&self) -> bool {
        *self == ObjectType::spec_from_code(self.spec_code())
    }

    /// Every code is the code of the object type that it stands for, and
    /// that object type is well formed.
    pub proof fn lemma_code_of_from_code(code: u32)
        ensures
            ObjectType::spec_from_code(code).spec_code() == code,
            ObjectType::spec_from_code(code).wf(),
    {
    }
}

impl From<u32> for ObjectType {
    /// The object type that a code stands for.
    fn from(code: u32) -> (r: ObjectType) {
        match code {
            0 => ObjectType::AnalogInput,
            1 => ObjectType::AnalogOutput,
            2 => ObjectType::AnalogValue,
            3 => ObjectType::BinaryInput,
            4 => ObjectType::BinaryOutput,
            5 => ObjectType::BinaryValue,
            6 => ObjectType::Calendar,
            7 => ObjectType::Command,
            8 => ObjectType::Device,
            9 => ObjectType::EventEnrollment,
            10 => ObjectType::File,
            11 => ObjectType::Group,
            12 => ObjectType::Loop,
            13 => ObjectType::MultiStateInput,
            14 => ObjectType::MultiStateOutput,
            15 => ObjectType::NotificationClass,
            16 => ObjectType::Program,
            17 => ObjectType::Schedule,
            18 => ObjectType::Averaging,
            19 => ObjectType::MultiStateValue,
            20 => ObjectType::TrendLog,
            21 => ObjectType::LifeSafetyPoint,
            22 => ObjectType::LifeSafetyZone,
            23 => ObjectType::Accumulator,
            24 => ObjectType::PulseConverter,
            _ => if code <= MAX_STANDARD_OBJECT_TYPE {
                ObjectType::Reserved(code)
            } else {
                ObjectType::Proprietary(code)
            },
        }
    }
}

impl FromSpecImpl<u32> for ObjectType {
    open spec fn obeys_from_spec() -> bool {
        true
    }

    open spec fn from_spec(code: u32) -> ObjectType {
        ObjectType::spec_from_code(code)
    }
}

} // verus!
