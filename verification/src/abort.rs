//! SDO abort codes (CiA 301, section 7.2.4.3.17).

use vstd::prelude::*;

verus! {

/// A standard CANopen SDO abort code.
///
/// On the wire an abort code is a little-endian `u32` in bytes 4..8 of an
/// abort message. `From<u32>` and `raw` convert between the two; a value that
/// is not one of the codes below is kept as [`SdoAbortCode::Unknown`].
#[derive(Debug, Clone, Copy, PartialEq, Eq, Structural)]
pub enum SdoAbortCode {
    /// 0x0503_0000 — Toggle bit not alternated.
    ToggleBitNotAlternated,
    /// 0x0504_0000 — SDO protocol timed out.
    ProtocolTimeout,
    /// 0x0504_0001 — Client/server command specifier not valid or unknown.
    InvalidCommandSpecifier,
    /// 0x0504_0002 — Invalid block size (block mode only).
    InvalidBlockSize,
    /// 0x0504_0003 — Invalid sequence number (block mode only).
    InvalidSequenceNumber,
    /// 0x0504_0004 — CRC error (block mode only).
    CrcError,
    /// 0x0504_0005 — Out of memory.
    OutOfMemory,
    /// 0x0601_0000 — Unsupported access to an object.
    UnsupportedAccess,
    /// 0x0601_0001 — Attempt to read a write-only object.
    ReadWriteOnly,
    /// 0x0601_0002 — Attempt to write a read-only object.
    WriteReadOnly,
    /// 0x0602_0000 — Object does not exist in the object dictionary.
    ObjectDoesNotExist,
    /// 0x0604_0041 — Object cannot be mapped to the PDO.
    NotMappable,
    /// 0x0604_0042 — Number / length of objects to be mapped exceeds PDO length.
    PdoLengthExceeded,
    /// 0x0604_0043 — General parameter incompatibility reason.
    ParameterIncompatibility,
    /// 0x0604_0047 — General internal incompatibility in the device.
    InternalIncompatibility,
    /// 0x0606_0000 — Access failed due to a hardware error.
    HardwareError,
    /// 0x0607_0010 — Data type does not match, length of service parameter does not match.
    DataTypeLengthMismatch,
    /// 0x0607_0012 — Data type does not match, length of service parameter too high.
    DataTypeLengthHigh,
    /// 0x0607_0013 — Data type does not match, length of service parameter too low.
    DataTypeLengthLow,
    /// 0x0609_0011 — Sub-index does not exist.
    SubindexDoesNotExist,
    /// 0x0609_0030 — Invalid value for parameter.
    InvalidValue,
    /// 0x0609_0031 — Value of parameter written too high.
    ValueTooHigh,
    /// 0x0609_0032 — Value of parameter written too low.
    ValueTooLow,
    /// 0x0609_0036 — Maximum value is less than minimum value.
    MaxLessThanMin,
    /// 0x060A_0023 — Resource not available.
    ResourceNotAvailable,
    /// 0x0800_0000 — General error.
    General,
    /// 0x0800_0020 — Data cannot be transferred or stored to the application.
    StorageError,
    /// 0x0800_0021 — ...because of local control.
    StorageLocalControl,
    /// 0x0800_0022 — ...because of the present device state.
    StorageDeviceState,
    /// 0x0800_0023 — Object dictionary dynamic generation fails or no object dictionary is present.
    NoObjectDictionary,
    /// 0x0800_0024 — No data available.
    NoData,
    /// Anything not recognised above.
    Unknown(u32),
}

/// The raw 32-bit value of an abort code.
pub open spec fn spec_abort_raw(code: SdoAbortCode) -> u32 {
    match code {
        SdoAbortCode::ToggleBitNotAlternated => 0x0503_0000,
        SdoAbortCode::ProtocolTimeout => 0x0504_0000,
        SdoAbortCode::InvalidCommandSpecifier => 0x0504_0001,
        SdoAbortCode::InvalidBlockSize => 0x0504_0002,
        SdoAbortCode::InvalidSequenceNumber => 0x0504_0003,
        SdoAbortCode::CrcError => 0x0504_0004,
        SdoAbortCode::OutOfMemory => 0x0504_0005,
        SdoAbortCode::UnsupportedAccess => 0x0601_0000,
        SdoAbortCode::ReadWriteOnly => 0x0601_0001,
        SdoAbortCode::WriteReadOnly => 0x0601_0002,
        SdoAbortCode::ObjectDoesNotExist => 0x0602_0000,
        SdoAbortCode::NotMappable => 0x0604_0041,
        SdoAbortCode::PdoLengthExceeded => 0x0604_0042,
        SdoAbortCode::ParameterIncompatibility => 0x0604_0043,
        SdoAbortCode::InternalIncompatibility => 0x0604_0047,
        SdoAbortCode::HardwareError => 0x0606_0000,
        SdoAbortCode::DataTypeLengthMismatch => 0x0607_0010,
        SdoAbortCode::DataTypeLengthHigh => 0x0607_0012,
        SdoAbortCode::DataTypeLengthLow => 0x0607_0013,
        SdoAbortCode::SubindexDoesNotExist => 0x0609_0011,
        SdoAbortCode::InvalidValue => 0x0609_0030,
        SdoAbortCode::ValueTooHigh => 0x0609_0031,
        SdoAbortCode::ValueTooLow => 0x0609_0032,
        SdoAbortCode::MaxLessThanMin => 0x0609_0036,
        SdoAbortCode::ResourceNotAvailable => 0x060A_0023,
        SdoAbortCode::General => 0x0800_0000,
        SdoAbortCode::StorageError => 0x0800_0020,
        SdoAbortCode::StorageLocalControl => 0x0800_0021,
        SdoAbortCode::StorageDeviceState => 0x0800_0022,
        SdoAbortCode::NoObjectDictionary => 0x0800_0023,
        SdoAbortCode::NoData => 0x0800_0024,
        SdoAbortCode::Unknown(raw) => raw,
    }
}

/// The abort code that a raw 32-bit value denotes.
pub open spec fn spec_abort_from_raw(raw: u32) -> SdoAbortCode {
    if raw == 0x0503_0000 {
        SdoAbortCode::ToggleBitNotAlternated
    } else if raw == 0x0504_0000 {
        SdoAbortCode::ProtocolTimeout
    } else if raw == 0x0504_0001 {
        SdoAbortCode::InvalidCommandSpecifier
    } else if raw == 0x0504_0002 {
        SdoAbortCode::InvalidBlockSize
    } else if raw == 0x0504_0003 {
        SdoAbortCode::InvalidSequenceNumber
    } else if raw == 0x0504_0004 {
        SdoAbortCode::CrcError
    } else if raw == 0x0504_0005 {
        SdoAbortCode::OutOfMemory
    } else if raw == 0x0601_0000 {
        SdoAbortCode::UnsupportedAccess
    } else if raw == 0x0601_0001 {
        SdoAbortCode::ReadWriteOnly
    } else if raw == 0x0601_0002 {
        SdoAbortCode::WriteReadOnly
    } else if raw == 0x0602_0000 {
        SdoAbortCode::ObjectDoesNotExist
    } else if raw == 0x0604_0041 {
        SdoAbortCode::NotMappable
    } else if raw == 0x0604_0042 {
        SdoAbortCode::PdoLengthExceeded
    } else if raw == 0x0604_0043 {
        SdoAbortCode::ParameterIncompatibility
    } else if raw == 0x0604_0047 {
        SdoAbortCode::InternalIncompatibility
    } else if raw == 0x0606_0000 {
        SdoAbortCode::HardwareError
    } else if raw == 0x0607_0010 {
        SdoAbortCode::DataTypeLengthMismatch
    } else if raw == 0x0607_0012 {
        SdoAbortCode::DataTypeLengthHigh
    } else if raw == 0x0607_0013 {
        SdoAbortCode::DataTypeLengthLow
    } else if raw == 0x0609_0011 {
        SdoAbortCode::SubindexDoesNotExist
    } else if raw == 0x0609_0030 {
        SdoAbortCode::InvalidValue
    } else if raw == 0x0609_0031 {
        SdoAbortCode::ValueTooHigh
    } else if raw == 0x0609_0032 {
        SdoAbortCode::ValueTooLow
    } else if raw == 0x0609_0036 {
        SdoAbortCode::MaxLessThanMin
    } else if raw == 0x060A_0023 {
        SdoAbortCode::ResourceNotAvailable
    } else if raw == 0x0800_0000 {
        SdoAbortCode::General
    } else if raw == 0x0800_0020 {
        SdoAbortCode::StorageError
    } else if raw == 0x0800_0021 {
        SdoAbortCode::StorageLocalControl
    } else if raw == 0x0800_0022 {
        SdoAbortCode::StorageDeviceState
    } else if raw == 0x0800_0023 {
        SdoAbortCode::NoObjectDictionary
    } else if raw == 0x0800_0024 {
        SdoAbortCode::NoData
    } else {
        SdoAbortCode::Unknown(raw)
    }
}

/// An abort code in its one canonical form: a standard code is never held as
/// `Unknown` with that code's raw value.
pub open spec fn is_canonical(code: SdoAbortCode) -> bool {
    match code {
        SdoAbortCode::Unknown(raw) => spec_abort_from_raw(raw) is Unknown,
        _ => true,
    }
}

impl SdoAbortCode {
    /// The raw 32-bit value sent on the wire.
    pub fn raw(self) -> (r: u32)
        ensures
            r == spec_abort_raw(self),
    {
        match self {
            Self::ToggleBitNotAlternated => 0x0503_0000,
            Self::ProtocolTimeout => 0x0504_0000,
            Self::InvalidCommandSpecifier => 0x0504_0001,
            Self::InvalidBlockSize => 0x0504_0002,
            Self::InvalidSequenceNumber => 0x0504_0003,
            Self::CrcError => 0x0504_0004,
            Self::OutOfMemory => 0x0504_0005,
            Self::UnsupportedAccess => 0x0601_0000,
            Self::ReadWriteOnly => 0x0601_0001,
            Self::WriteReadOnly => 0x0601_0002,
            Self::ObjectDoesNotExist => 0x0602_0000,
            Self::NotMappable => 0x0604_0041,
            Self::PdoLengthExceeded => 0x0604_0042,
            Self::ParameterIncompatibility => 0x0604_0043,
            Self::InternalIncompatibility => 0x0604_0047,
            Self::HardwareError => 0x0606_0000,
            Self::DataTypeLengthMismatch => 0x0607_0010,
            Self::DataTypeLengthHigh => 0x0607_0012,
            Self::DataTypeLengthLow => 0x0607_0013,
            Self::SubindexDoesNotExist => 0x0609_0011,
            Self::InvalidValue => 0x0609_0030,
            Self::ValueTooHigh => 0x0609_0031,
            Self::ValueTooLow => 0x0609_0032,
            Self::MaxLessThanMin => 0x0609_0036,
            Self::ResourceNotAvailable => 0x060A_0023,
            Self::General => 0x0800_0000,
            Self::StorageError => 0x0800_0020,
            Self::StorageLocalControl => 0x0800_0021,
            Self::StorageDeviceState => 0x0800_0022,
            Self::NoObjectDictionary => 0x0800_0023,
            Self::NoData => 0x0800_0024,
            Self::Unknown(raw) => raw,
        }
    }

    /// The abort code for a raw 32-bit value.
    pub fn from_raw(raw: u32) -> (code: Self)
        ensures
            code == spec_abort_from_raw(raw),
    {
        match raw {
            0x0503_0000 => Self::ToggleBitNotAlternated,
            0x0504_0000 => Self::ProtocolTimeout,
            0x0504_0001 => Self::InvalidCommandSpecifier,
            0x0504_0002 => Self::InvalidBlockSize,
            0x0504_0003 => Self::InvalidSequenceNumber,
            0x0504_0004 => Self::CrcError,
            0x0504_0005 => Self::OutOfMemory,
            0x0601_0000 => Self::UnsupportedAccess,
            0x0601_0001 => Self::ReadWriteOnly,
            0x0601_0002 => Self::WriteReadOnly,
            0x0602_0000 => Self::ObjectDoesNotExist,
            0x0604_0041 => Self::NotMappable,
            0x0604_0042 => Self::PdoLengthExceeded,
            0x0604_0043 => Self::ParameterIncompatibility,
            0x0604_0047 => Self::InternalIncompatibility,
            0x0606_0000 => Self::HardwareError,
            0x0607_0010 => Self::DataTypeLengthMismatch,
            0x0607_0012 => Self::DataTypeLengthHigh,
            0x0607_0013 => Self::DataTypeLengthLow,
            0x0609_0011 => Self::SubindexDoesNotExist,
            0x0609_0030 => Self::InvalidValue,
            0x0609_0031 => Self::ValueTooHigh,
            0x0609_0032 => Self::ValueTooLow,
            0x0609_0036 => Self::MaxLessThanMin,
            0x060A_0023 => Self::ResourceNotAvailable,
            0x0800_0000 => Self::General,
            0x0800_0020 => Self::StorageError,
            0x0800_0021 => Self::StorageLocalControl,
            0x0800_0022 => Self::StorageDeviceState,
            0x0800_0023 => Self::NoObjectDictionary,
            0x0800_0024 => Self::NoData,
            other => Self::Unknown(other),
        }
    }
}

impl From<u32> for SdoAbortCode {
    fn from(raw: u32) -> (code: Self) {
        Self::from_raw(raw)
    }
}

impl vstd::std_specs::convert::FromSpecImpl<u32> for SdoAbortCode {
    open spec fn obeys_from_spec() -> bool {
        true
    }

    open spec fn from_spec(raw: u32) -> Self {
        spec_abort_from_raw(raw)
    }
}

impl From<SdoAbortCode> for u32 {
    fn from(code: SdoAbortCode) -> (raw: u32) {
        code.raw()
    }
}

impl vstd::std_specs::convert::FromSpecImpl<SdoAbortCode> for u32 {
    open spec fn obeys_from_spec() -> bool {
        true
    }

    open spec fn from_spec(code: SdoAbortCode) -> u32 {
        spec_abort_raw(code)
    }
}

/// Raw values round-trip: decoding a raw value and encoding the code again
/// gives back the same raw value, for every `u32`.
pub proof fn lemma_raw_of_from_raw(raw: u32)
    ensures
        spec_abort_raw(spec_abort_from_raw(raw)) == raw,
        is_canonical(spec_abort_from_raw(raw)),
{
}

/// Codes round-trip: encoding a code and decoding the raw value gives back
/// the same code, for every code in canonical form (each standard code, and
/// `Unknown` of a value that no standard code has).
pub proof fn lemma_from_raw_of_raw(code: SdoAbortCode)
    requires
        is_canonical(code),
    ensures
        spec_abort_from_raw(spec_abort_raw(code)) == code,
{
}

/// Each named abort code has the value CiA 301 (7.2.4.3.17) assigns it, in
/// both directions: `raw` gives that value and `from_raw` of that value
/// gives back the name.
pub proof fn lemma_abort_code_values()
    ensures
        spec_abort_raw(SdoAbortCode::ToggleBitNotAlternated) == 0x0503_0000u32,
        spec_abort_raw(SdoAbortCode::ProtocolTimeout) == 0x0504_0000u32,
        spec_abort_raw(SdoAbortCode::InvalidCommandSpecifier) == 0x0504_0001u32,
        spec_abort_raw(SdoAbortCode::InvalidBlockSize) == 0x0504_0002u32,
        spec_abort_raw(SdoAbortCode::InvalidSequenceNumber) == 0x0504_0003u32,
        spec_abort_raw(SdoAbortCode::CrcError) == 0x0504_0004u32,
        spec_abort_raw(SdoAbortCode::OutOfMemory) == 0x0504_0005u32,
        spec_abort_raw(SdoAbortCode::UnsupportedAccess) == 0x0601_0000u32,
        spec_abort_raw(SdoAbortCode::ReadWriteOnly) == 0x0601_0001u32,
        spec_abort_raw(SdoAbortCode::WriteReadOnly) == 0x0601_0002u32,
        spec_abort_raw(SdoAbortCode::ObjectDoesNotExist) == 0x0602_0000u32,
        spec_abort_raw(SdoAbortCode::NotMappable) == 0x0604_0041u32,
        spec_abort_raw(SdoAbortCode::PdoLengthExceeded) == 0x0604_0042u32,
        spec_abort_raw(SdoAbortCode::ParameterIncompatibility) == 0x0604_0043u32,
        spec_abort_raw(SdoAbortCode::InternalIncompatibility) == 0x0604_0047u32,
        spec_abort_raw(SdoAbortCode::HardwareError) == 0x0606_0000u32,
        spec_abort_raw(SdoAbortCode::DataTypeLengthMismatch) == 0x0607_0010u32,
        spec_abort_raw(SdoAbortCode::DataTypeLengthHigh) == 0x0607_0012u32,
        spec_abort_raw(SdoAbortCode::DataTypeLengthLow) == 0x0607_0013u32,
        spec_abort_raw(SdoAbortCode::SubindexDoesNotExist) == 0x0609_0011u32,
        spec_abort_raw(SdoAbortCode::InvalidValue) == 0x0609_0030u32,
        spec_abort_raw(SdoAbortCode::ValueTooHigh) == 0x0609_0031u32,
        spec_abort_raw(SdoAbortCode::ValueTooLow) == 0x0609_0032u32,
        spec_abort_raw(SdoAbortCode::MaxLessThanMin) == 0x0609_0036u32,
        spec_abort_raw(SdoAbortCode::ResourceNotAvailable) == 0x060A_0023u32,
        spec_abort_raw(SdoAbortCode::General) == 0x0800_0000u32,
        spec_abort_raw(SdoAbortCode::StorageError) == 0x0800_0020u32,
        spec_abort_raw(SdoAbortCode::StorageLocalControl) == 0x0800_0021u32,
        spec_abort_raw(SdoAbortCode::StorageDeviceState) == 0x0800_0022u32,
        spec_abort_raw(SdoAbortCode::NoObjectDictionary) == 0x0800_0023u32,
        spec_abort_raw(SdoAbortCode::NoData) == 0x0800_0024u32,
        spec_abort_from_raw(0x0503_0000u32) == SdoAbortCode::ToggleBitNotAlternated,
        spec_abort_from_raw(0x0504_0000u32) == SdoAbortCode::ProtocolTimeout,
        spec_abort_from_raw(0x0504_0001u32) == SdoAbortCode::InvalidCommandSpecifier,
        spec_abort_from_raw(0x0504_0002u32) == SdoAbortCode::InvalidBlockSize,
        spec_abort_from_raw(0x0504_0003u32) == SdoAbortCode::InvalidSequenceNumber,
        spec_abort_from_raw(0x0504_0004u32) == SdoAbortCode::CrcError,
        spec_abort_from_raw(0x0504_0005u32) == SdoAbortCode::OutOfMemory,
        spec_abort_from_raw(0x0601_0000u32) == SdoAbortCode::UnsupportedAccess,
        spec_abort_from_raw(0x0601_0001u32) == SdoAbortCode::ReadWriteOnly,
        spec_abort_from_raw(0x0601_0002u32) == SdoAbortCode::WriteReadOnly,
        spec_abort_from_raw(0x0602_0000u32) == SdoAbortCode::ObjectDoesNotExist,
        spec_abort_from_raw(0x0604_0041u32) == SdoAbortCode::NotMappable,
        spec_abort_from_raw(0x0604_0042u32) == SdoAbortCode::PdoLengthExceeded,
        spec_abort_from_raw(0x0604_0043u32) == SdoAbortCode::ParameterIncompatibility,
        spec_abort_from_raw(0x0604_0047u32) == SdoAbortCode::InternalIncompatibility,
        spec_abort_from_raw(0x0606_0000u32) == SdoAbortCode::HardwareError,
        spec_abort_from_raw(0x0607_0010u32) == SdoAbortCode::DataTypeLengthMismatch,
        spec_abort_from_raw(0x0607_0012u32) == SdoAbortCode::DataTypeLengthHigh,
        spec_abort_from_raw(0x0607_0013u32) == SdoAbortCode::DataTypeLengthLow,
        spec_abort_from_raw(0x0609_0011u32) == SdoAbortCode::SubindexDoesNotExist,
        spec_abort_from_raw(0x0609_0030u32) == SdoAbortCode::InvalidValue,
        spec_abort_from_raw(0x0609_0031u32) == SdoAbortCode::ValueTooHigh,
        spec_abort_from_raw(0x0609_0032u32) == SdoAbortCode::ValueTooLow,
        spec_abort_from_raw(0x0609_0036u32) == SdoAbortCode::MaxLessThanMin,
        spec_abort_from_raw(0x060A_0023u32) == SdoAbortCode::ResourceNotAvailable,
        spec_abort_from_raw(0x0800_0000u32) == SdoAbortCode::General,
        spec_abort_from_raw(0x0800_0020u32) == SdoAbortCode::StorageError,
        spec_abort_from_raw(0x0800_0021u32) == SdoAbortCode::StorageLocalControl,
        spec_abort_from_raw(0x0800_0022u32) == SdoAbortCode::StorageDeviceState,
        spec_abort_from_raw(0x0800_0023u32) == SdoAbortCode::NoObjectDictionary,
        spec_abort_from_raw(0x0800_0024u32) == SdoAbortCode::NoData,
{
}

} // verus!
