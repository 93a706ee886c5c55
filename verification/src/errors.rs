//! The fatal outcomes of an upload and the process status that reports each.

use vstd::prelude::*;

verus! {

/// Process status codes of the flashing tool.
#[derive(Clone, Copy, Debug, PartialEq, Eq, Structural)]
pub enum ExitCodes {
    /// The upload completed.
    Success,
    /// The firmware file could not be read.
    FileError,
    /// The firmware file has the wrong size.
    FilesizeError,
    /// The serial device could not be opened.
    DeviceError,
    /// The handshake failed: the init sequence could not be written, or the
    /// device sent unexpected data.
    InitWriteError,
    /// A block could not be written or flushed.
    WriteError,
    /// A block was not acknowledged.
    AckError,
    /// The command line was malformed.
    ParametersError,
}

impl ExitCodes {
    /// The numeric status of this exit code.
    pub open spec fn spec_code(self) -> i32 {
        match self {
            ExitCodes::Success => 0,
            ExitCodes::FileError => 1,
            ExitCodes::FilesizeError => 2,
            ExitCodes::DeviceError => 3,
            ExitCodes::InitWriteError => 4,
            ExitCodes::WriteError => 5,
            ExitCodes::AckError => 6,
            ExitCodes::ParametersError => 999,
        }
    }

    /// The numeric status to end the process with.
    pub fn code(self) -> (status: i32)
        ensures
            status == self.spec_code(),
    {
        match self {
            ExitCodes::Success => 0,
            ExitCodes::FileError => 1,
            ExitCodes::FilesizeError => 2,
            ExitCodes::DeviceError => 3,
            ExitCodes::InitWriteError => 4,
            ExitCodes::WriteError => 5,
            ExitCodes::AckError => 6,
            ExitCodes::ParametersError => 999,
        }
    }
}

/// Why an upload was refused or aborted. Every variant is fatal: nothing is
/// retried.
#[derive(Clone, Copy, Debug, PartialEq, Eq, Structural)]
pub enum UploadError {
    /// The padded firmware length lies outside the accepted range.
    FirmwareSize,
    /// During the handshake the device sent a byte other than the sentinel.
    UnexpectedData { byte: u8 },
    /// The init sequence could not be written.
    InitWrite,
    /// The packet of the block at this byte offset could not be written.
    BlockWrite { offset: usize },
    /// The transport could not be flushed after the packet of the block at
    /// this byte offset.
    Flush { offset: usize },
    /// No acknowledgement arrived for the block at this byte offset.
    AckRead { offset: usize },
}

impl UploadError {
    /// The exit code that reports this error.
    pub open spec fn spec_exit_code(self) -> ExitCodes {
        match self {
            UploadError::FirmwareSize => ExitCodes::FilesizeError,
            UploadError::UnexpectedData { .. } => ExitCodes::InitWriteError,
            UploadError::InitWrite => ExitCodes::InitWriteError,
            UploadError::BlockWrite { .. } => ExitCodes::WriteError,
            UploadError::Flush { .. } => ExitCodes::WriteError,
            UploadError::AckRead { .. } => ExitCodes::AckError,
        }
    }

    /// The byte offset of the block at which the transfer failed, for the
    /// errors that arise during the transfer.
    pub open spec fn spec_offset(self) -> Option<usize> {
        match self {
            UploadError::BlockWrite { offset } => Some(offset),
            UploadError::Flush { offset } => Some(offset),
            UploadError::AckRead { offset } => Some(offset),
            _ => None,
        }
    }

    /// The exit code that reports this error: a protocol violation counts as
    /// a failed init write, a failed flush as a failed block write.
    pub fn exit_code(&self) -> (code: ExitCodes)
        ensures
            code == self.spec_exit_code(),
    {
        match self {
            UploadError::FirmwareSize => ExitCodes::FilesizeError,
            UploadError::UnexpectedData { .. } => ExitCodes::InitWriteError,
            UploadError::InitWrite => ExitCodes::InitWriteError,
            UploadError::BlockWrite { .. } => ExitCodes::WriteError,
            UploadError::Flush { .. } => ExitCodes::WriteError,
            UploadError::AckRead { .. } => ExitCodes::AckError,
        }
    }

    /// The byte offset of the failing block, if the error arose during the
    /// transfer.
    pub fn offset(&self) -> (offset: Option<usize>)
        ensures
            offset == self.spec_offset(),
    {
        match self {
            UploadError::BlockWrite { offset } => Some(*offset),
            UploadError::Flush { offset } => Some(*offset),
            UploadError::AckRead { offset } => Some(*offset),
            _ => None,
        }
    }
}

} // verus!
