//! Errors surfaced to HTTP callers.
use vstd::prelude::*;

verus! {

/// A textual field of a workload request.
#[derive(Clone, Copy, Debug, PartialEq, Eq, Structural)]
pub enum Field {
    AppName,
    AppPath,
    AppType,
    AppParams,
    DeviceMapping,
    AppModules,
}

/// Recoverable failures of the request handlers.
#[derive(Clone, Copy, Debug, PartialEq, Eq, Structural)]
pub enum ApiError {
    /// The field holds an embedded NUL and cannot become a native string.
    MalformedField(Field),
    /// The native runtime declined the request (return code -1).
    NativeRejected,
    /// The native runtime reported an internal failure (return code -2 or less).
    NativeFault,
    /// No native callback was configured.
    CallbackMissing,
    /// No loaded workload has this identifier.
    NotFound(i32),
}

pub open spec fn status_of(e: ApiError) -> u16 {
    match e {
        ApiError::MalformedField(_) => 400,
        ApiError::NativeRejected => 400,
        ApiError::NativeFault => 500,
        ApiError::CallbackMissing => 500,
        ApiError::NotFound(_) => 404,
    }
}

impl Field {
    /// The field's name on the wire.
    pub fn name(&self) -> (r: String)
        ensures
            r@ == field_name(*self),
    {
        match self {
            Field::AppName => String::from_str("app_name"),
            Field::AppPath => String::from_str("app_path"),
            Field::AppType => String::from_str("app_type"),
            Field::AppParams => String::from_str("app_params"),
            Field::DeviceMapping => String::from_str("device_mapping"),
            Field::AppModules => String::from_str("app_modules"),
        }
    }
}

pub open spec fn field_name(f: Field) -> Seq<char> {
    match f {
        Field::AppName => "app_name"@,
        Field::AppPath => "app_path"@,
        Field::AppType => "app_type"@,
        Field::AppParams => "app_params"@,
        Field::DeviceMapping => "device_mapping"@,
        Field::AppModules => "app_modules"@,
    }
}

impl ApiError {
    /// HTTP status code that reports this error.
    pub fn status(&self) -> (r: u16)
        ensures
            r == status_of(*self),
    {
        match self {
            ApiError::MalformedField(_) => 400,
            ApiError::NativeRejected => 400,
            ApiError::NativeFault => 500,
            ApiError::CallbackMissing => 500,
            ApiError::NotFound(_) => 404,
        }
    }
}

} // verus!
