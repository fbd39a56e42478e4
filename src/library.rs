use vstd::prelude::*;

verus! {

/// OS error: the specified module could not be found.
pub const ERROR_MOD_NOT_FOUND: i32 = 126;

/// Why the projection library could not be loaded at run time.
#[derive(Debug, Clone, Copy, PartialEq, Eq, Structural)]
pub enum LibraryLoadFailure {
    /// The module is missing: the optional OS feature is not enabled.
    FeatureNotEnabled,
    /// Any other failure to load the module or resolve its entry points.
    LibraryError,
}

/// A failed load of the module, given the OS error code under it where
/// there is one: only "module not found" means the feature is disabled.
pub open spec fn load_failure_spec(raw_os_error: Option<i32>) -> LibraryLoadFailure {
    if raw_os_error == Some(ERROR_MOD_NOT_FOUND) {
        LibraryLoadFailure::FeatureNotEnabled
    } else {
        LibraryLoadFailure::LibraryError
    }
}

pub fn classify_load_failure(raw_os_error: Option<i32>) -> (r: LibraryLoadFailure)
    ensures
        r == load_failure_spec(raw_os_error),
{
    match raw_os_error {
        Some(code) => {
            if code == ERROR_MOD_NOT_FOUND {
                LibraryLoadFailure::FeatureNotEnabled
            } else {
                LibraryLoadFailure::LibraryError
            }
        },
        None => LibraryLoadFailure::LibraryError,
    }
}

} // verus!
