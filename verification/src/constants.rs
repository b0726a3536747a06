//! Sizes shared by the upload and download paths.
use vstd::prelude::*;

verus! {

/// Size of the read buffer for form bodies, and of the plaintext of one
/// encrypted segment.
pub const FORM_READ_BUFFER_SIZE: usize = 10240;

/// Size of the buffer that holds the value of a form field other than files.
pub const FORM_FIELD_BUFFER_SIZE: usize = 4096;

/// Longest accepted form boundary, counting the leading `\r\n--`.
pub const MAX_FORM_BOUNDARY_LENGTH: usize = 74;

/// Number of bytes in an upload ID.
pub const ID_LENGTH: usize = 8;

} // verus!
