//! The index page and initial setup.

use vstd::prelude::*;

use crate::article;
use crate::article::{sorted_by_date_desc, Article};
use crate::error::Error;
use crate::store::Store;
use crate::document::user::signup_outcome;
use crate::user::{NewUser, Session};

verus! {

/// Whether the engine still awaits its first account; the index redirects
/// to the initial setup while it does.
pub fn needs_setup(store: &Store) -> (r: bool)
    ensures
        r == (store.users@.len() == 0),
{
    store.users.len() == 0
}

/// What the index shows: nothing while setup is pending, else every
/// article, newest first.
pub fn index(store: &Store) -> (r: Option<Vec<Article>>)
    ensures
        match r {
            None => store.users@.len() == 0,
            Some(articles) => {
                &&& store.users@.len() > 0
                &&& sorted_by_date_desc(articles@)
                &&& articles@.to_multiset() == store.articles@.to_multiset()
            },
        },
{
    if needs_setup(store) {
        return None;
    }
    Some(article::list(store))
}

/// The initial setup may create the first account only while no account
/// exists; afterwards it signs the new account in like an ordinary signup.
pub fn init_setup_post(store: &mut Store, new_user: NewUser) -> (r: Result<Session, Error>)
    ensures
        old(store).users@.len() > 0 ==> r == Err::<Session, Error>(Error::SetupComplete)
            && *final(store) == *old(store),
        old(store).users@.len() == 0 ==> signup_outcome(*old(store), *final(store), new_user, r),
        old(store).wf() ==> final(store).wf(),
{
    if store.users.len() > 0 {
        return Err(Error::SetupComplete);
    }
    crate::document::user::signup_post(store, new_user)
}

} // verus!
