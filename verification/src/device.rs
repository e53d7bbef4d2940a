//! Device-session configuration and the decision rule of two-phase counted
//! fetches.

use vstd::prelude::*;
use crate::error::MtpError;

verus! {

/// Identity of the calling application.
///
/// The device drivers require the caller to introduce itself when a session
/// is opened.  The caller constructs this explicitly from its own versioning
/// data; nothing is read from the build environment behind its back.
#[derive(Debug)]
pub struct AppIdentifiers {
    pub app_name: String,
    pub app_major: u32,
    pub app_minor: u32,
    pub app_patch: u32,
}

impl Clone for AppIdentifiers {
    /// A clone carries the very same identity.
    fn clone(&self) -> (r: Self)
        ensures
            r == *self,
    {
        AppIdentifiers {
            app_name: self.app_name.clone(),
            app_major: self.app_major,
            app_minor: self.app_minor,
            app_patch: self.app_patch,
        }
    }
}

/// The decision rule of a two-phase counted fetch (query the count, allocate,
/// fetch again): the second answer must deliver exactly the count promised by
/// the first, otherwise the device state shifted mid-operation and the whole
/// operation must be reported as `ChangedConditions`, never retried silently.
pub fn confirm_refetch_count(promised: u32, delivered: u32) -> (r: Result<(), MtpError>)
    ensures
        r == if delivered == promised {
            Result::<(), MtpError>::Ok(())
        } else {
            Result::<(), MtpError>::Err(MtpError::ChangedConditions)
        },
{
    if delivered == promised {
        Ok(())
    } else {
        Err(MtpError::ChangedConditions)
    }
}

} // verus!
