use vstd::prelude::*;

verus! {

/// Typed failure of every fallible operation of the library.
#[derive(Clone, Debug, PartialEq, Eq)]
pub enum ForgeError {
    Io { operation: &'static str, detail: String },
    PermissionDenied(String),
    Timeout,
    DeviceNotFound(String),
    FeatureUnsupported(u16),
    InvalidArgument(String),
    ConfigError(String),
    InvalidResponse(String),
    Hidpp { code: u8, feature_index: u8, function: u8 },
    VerificationFailed { requested: u16, actual: u16 },
}

pub type Result<T> = core::result::Result<T, ForgeError>;

} // verus!
