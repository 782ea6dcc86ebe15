//! How the operations get at the state that they share.

use vstd::prelude::*;

use crate::error::ApiError;
use crate::routes::active_access_profile::ActiveAccessProfile;

verus! {

/// The name of the profile that is enforced right now, read from the
/// controller at the time of the call.
pub fn get_active_profile_name(aacp: &ActiveAccessProfile) -> (r: Result<String, ApiError>)
    ensures
        r matches Ok(name) && name@ == aacp@.name,
{
    Ok(aacp.get())
}

} // verus!
