//! Validation of the fixed 26-byte PSD file header.

use vstd::prelude::*;

use super::error::PsdError;

verus! {

/// Length of the fixed PSD file header.
pub const PSD_HEADER_LEN: usize = 26;

/// The PSD format version (`.psd`); version `2` is PSB.
pub const PSD_VERSION: u16 = 1;

/// The outcome of validating the header of `bytes`: too short, a wrong
/// signature, a version other than `1`, or fine.
pub open spec fn header_result(bytes: Seq<u8>) -> Result<(), PsdError> {
    if bytes.len() < PSD_HEADER_LEN {
        Err(PsdError::Truncated(bytes.len() as usize))
    } else if !(bytes[0] == 0x38 && bytes[1] == 0x42 && bytes[2] == 0x50 && bytes[3] == 0x53) {
        Err(PsdError::BadSignature)
    } else if bytes[4] as int * 256 + bytes[5] as int != PSD_VERSION as int {
        Err(PsdError::UnsupportedVersion((bytes[4] as int * 256 + bytes[5] as int) as u16))
    } else {
        Ok(())
    }
}

/// Validate the 26-byte PSD file header: length, the `8BPS` signature and
/// the big-endian version at bytes 4..6.
pub fn validate_header(bytes: &[u8]) -> (r: Result<(), PsdError>)
    ensures
        r == header_result(bytes@),
{
    if bytes.len() < PSD_HEADER_LEN {
        return Err(PsdError::Truncated(bytes.len()));
    }
    if !(bytes[0] == 0x38 && bytes[1] == 0x42 && bytes[2] == 0x50 && bytes[3] == 0x53) {
        return Err(PsdError::BadSignature);
    }
    let version: u16 = (bytes[4] as u16) * 256 + (bytes[5] as u16);
    if version != PSD_VERSION {
        return Err(PsdError::UnsupportedVersion(version));
    }
    Ok(())
}

/// Stateless reader that imports Photoshop documents.
pub struct PsdReader;

} // verus!
