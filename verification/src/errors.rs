use vstd::prelude::*;

verus! {

/// The library's error type.
///
/// Every failure of the archive reader, the model decoder and the mesh
/// assembler is one of these values; errors are local to the call that
/// raised them and never corrupt decoder state.
#[derive(Debug, Clone, Copy, PartialEq, Eq, Structural)]
pub enum TosError {
    /// The archive trailer's magic field does not hold the fixed marker.
    BadMagic,
    /// The model header's four-byte tag is not the expected one.
    BadHeader,
    /// The model header declares big-endian data; only little-endian is read.
    UnsupportedEndianness,
    /// An archive entry's payload failed to inflate.
    DecompressFailed,
    /// Mesh assembly asked an attribute buffer for more bytes than it holds.
    /// Carries the attribute kind id and the index of the submesh being built.
    TruncatedAttributeBuffer { layer_type: u32, submesh_index: usize },
    /// A read or seek went outside the underlying byte source.
    IoError,
}

impl TosError {
    /// A short description of the error, for callers that print it.
    pub fn describe(&self) -> String {
        match self {
            TosError::BadMagic => "invalid archive magic number".to_string(),
            TosError::BadHeader => "invalid model header tag".to_string(),
            TosError::UnsupportedEndianness => "model data is not little-endian".to_string(),
            TosError::DecompressFailed => "failed to decompress data".to_string(),
            TosError::TruncatedAttributeBuffer { .. } => {
                "vertex attribute data out of bounds".to_string()
            },
            TosError::IoError => "unexpected end of data".to_string(),
        }
    }
}

} // verus!
