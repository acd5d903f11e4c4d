//! Internal error taxonomy and its mapping onto the wire-safe error variants.
//!
//! Internal errors may carry payloads that must never reach the wire (for
//! example the flash driver's fault kind); `Error::to_command_error` is the
//! single place where they are collapsed to stateless `CommandError` tags.

use vstd::prelude::*;

verus! {

/// Fault kinds reported by the flash driver while reading, erasing or
/// writing persistent storage. The dispatcher never puts these on the wire;
/// they are collapsed to `CommandError::FlashError`.
#[derive(Clone, Copy, PartialEq, Eq, Structural, Debug)]
pub enum FlashFault {
    AddressLargerThanFlash,
    AddressMisaligned,
    LengthNotMultiple2,
    LengthTooLong,
    EraseError,
    ProgrammingError,
    WriteError,
    VerifyError,
    UnlockError,
    OptUnlockError,
    LockError,
    OptLockError,
    ArrayMustBeDivisibleBy8,
}

/// Faults of the frame codec: a frame whose checksum or shape is wrong, or a
/// destination buffer too small for the encoded frame.
#[derive(Clone, Copy, PartialEq, Eq, Structural, Debug)]
pub enum CodecFault {
    /// The trailing checksum does not match the payload, or the payload does
    /// not deserialize as any known shape.
    IntegrityFault,
    /// The destination buffer cannot hold the encoded frame.
    SerializationFault,
}

/// Internal result kinds of the core. Only `to_command_error` may translate
/// these for the wire.
#[derive(Clone, Copy, PartialEq, Eq, Structural, Debug)]
pub enum Error {
    ChannelNotFound(u8),
    GroupNotFound(u8),
    DutyOverflow(i32),
    DmaBufferOverflow,
    SerialTxBusy,
    SerialTxNotStarted,
    FlashError(FlashFault),
    StorageEmpty,
    SerializedDataError(CodecFault),
}

/// Stateless error tags that are echoed to the caller in a response frame.
/// Internal payloads (such as the flash fault kind) are deliberately
/// discarded.
#[derive(Clone, Copy, PartialEq, Eq, Structural, Debug)]
pub enum CommandError {
    ChannelNotFound(u8),
    GroupNotFound(u8),
    DutyOverflow(i32),
    FlashError,
    StorageEmpty,
    UnknownError,
}

/// The fixed internal-to-wire error table.
pub open spec fn spec_to_command_error(e: Error) -> CommandError {
    match e {
        Error::ChannelNotFound(channel) => CommandError::ChannelNotFound(channel),
        Error::GroupNotFound(group) => CommandError::GroupNotFound(group),
        Error::DutyOverflow(duty) => CommandError::DutyOverflow(duty),
        Error::FlashError(_) => CommandError::FlashError,
        Error::StorageEmpty => CommandError::StorageEmpty,
        _ => CommandError::UnknownError,
    }
}

impl Error {
    /// Collapse an internal error to its wire-safe tag.
    pub fn to_command_error(&self) -> (r: CommandError)
        ensures
            r == spec_to_command_error(*self),
    {
        match self {
            Error::ChannelNotFound(channel) => CommandError::ChannelNotFound(*channel),
            Error::GroupNotFound(group) => CommandError::GroupNotFound(*group),
            Error::DutyOverflow(duty) => CommandError::DutyOverflow(*duty),
            Error::FlashError(_) => CommandError::FlashError,
            Error::StorageEmpty => CommandError::StorageEmpty,
            _ => CommandError::UnknownError,
        }
    }
}

impl FlashFault {
    /// Diagnostic name of a flash fault, for human-readable status output.
    pub fn name(&self) -> (r: &'static str)
        ensures
            r@ == spec_flash_fault_name(*self),
    {
        match self {
            FlashFault::AddressLargerThanFlash => "AddressLargerThanFlash",
            FlashFault::AddressMisaligned => "AddressMisaligned",
            FlashFault::LengthNotMultiple2 => "LengthNotMultiple2",
            FlashFault::LengthTooLong => "LengthTooLong",
            FlashFault::EraseError => "EraseError",
            FlashFault::ProgrammingError => "ProgrammingError",
            FlashFault::WriteError => "WriteError",
            FlashFault::VerifyError => "VerifyError",
            FlashFault::UnlockError => "UnlockError",
            FlashFault::OptUnlockError => "OptUnlockError",
            FlashFault::LockError => "LockError",
            FlashFault::OptLockError => "OptLockError",
            FlashFault::ArrayMustBeDivisibleBy8 => "ArrayMustBeDivisibleBy8",
        }
    }
}

/// The diagnostic name of each flash fault kind.
pub open spec fn spec_flash_fault_name(f: FlashFault) -> Seq<char> {
    match f {
        FlashFault::AddressLargerThanFlash => "AddressLargerThanFlash"@,
        FlashFault::AddressMisaligned => "AddressMisaligned"@,
        FlashFault::LengthNotMultiple2 => "LengthNotMultiple2"@,
        FlashFault::LengthTooLong => "LengthTooLong"@,
        FlashFault::EraseError => "EraseError"@,
        FlashFault::ProgrammingError => "ProgrammingError"@,
        FlashFault::WriteError => "WriteError"@,
        FlashFault::VerifyError => "VerifyError"@,
        FlashFault::UnlockError => "UnlockError"@,
        FlashFault::OptUnlockError => "OptUnlockError"@,
        FlashFault::LockError => "LockError"@,
        FlashFault::OptLockError => "OptLockError"@,
        FlashFault::ArrayMustBeDivisibleBy8 => "ArrayMustBeDivisibleBy8"@,
    }
}

} // verus!
