//! Gated account operations.

use vstd::prelude::*;

use crate::config::Settings;
use crate::error::Error;
use crate::store::Store;
use crate::user;
use crate::user::{create_outcome, NewUser, Session};

verus! {

/// Create an account: without a session this needs the signup feature to be
/// switched on.
pub fn create(
    store: &mut Store,
    session: Option<&Session>,
    settings: &Settings,
    user: NewUser,
) -> (r: Result<usize, Error>)
    ensures
        if session is None && !settings.features.signups {
            r == Err::<usize, Error>(Error::PermissionDenied) && *final(store) == *old(store)
        } else {
            create_outcome(*old(store), *final(store), user, r)
        },
        old(store).wf() ==> final(store).wf(),
{
    if session.is_none() && !settings.features.signups {
        return Err(Error::PermissionDenied);
    }
    user::create(store, user)
}

} // verus!
