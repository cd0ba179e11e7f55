//! Signup: the one page whose decisions go beyond a single account
//! operation — it traps spam bots, creates the account and signs it in.

use vstd::prelude::*;

use crate::error::Error;
use crate::store::Store;
use crate::user;
use crate::user::{create_outcome, login_outcome, Login, NewUser, Session};

verus! {

impl NewUser {
    /// An exact copy; spelled out so that verified callers know the copy
    /// equals the original.
    pub fn duplicate(&self) -> (r: NewUser)
        ensures
            r == *self,
    {
        NewUser {
            id: self.id.clone(),
            password: self.password.clone(),
            name: self.name.clone(),
            email: self.email.clone(),
            group: self.group.clone(),
            phone: self.phone.clone(),
        }
    }
}

/// What signing up does: a filled spam trap changes nothing; otherwise the
/// account is created and, on success, logged straight in, with a login
/// that never matches mapped to a wrong-password failure.
pub open spec fn signup_outcome(
    pre: Store,
    post: Store,
    new_user: NewUser,
    r: Result<Session, Error>,
) -> bool {
    if new_user.phone@.len() > 0 {
        r == Err::<Session, Error>(Error::SpamSuspected) && post == pre
    } else {
        exists|mid: Store, cr: Result<usize, Error>|
            {
                &&& #[trigger] create_outcome(pre, mid, new_user, cr)
                &&& match cr {
                    Err(e) => r == Err::<Session, Error>(e) && post == mid,
                    Ok(_) => exists|lr: Result<Option<Session>, Error>|
                        {
                            &&& #[trigger] login_outcome(
                                mid,
                                post,
                                Login { user: new_user.id, password: new_user.password },
                                lr,
                            )
                            &&& r == (match lr {
                                Ok(Some(s)) => Ok::<Session, Error>(s),
                                Ok(None) => Err::<Session, Error>(Error::WrongPassword),
                                Err(e) => Err::<Session, Error>(e),
                            })
                        },
                }
            }
    }
}

/// Create the account the form describes and sign it in. A filled spam trap
/// field gives the request away; nothing is stored then.
pub fn signup_post(store: &mut Store, new_user: NewUser) -> (r: Result<Session, Error>)
    ensures
        signup_outcome(*old(store), *final(store), new_user, r),
        old(store).wf() ==> final(store).wf(),
{
    // If the `phone` field is filled out we caught a spammer
    if !new_user.phone.as_str().is_empty() {
        return Err(Error::SpamSuspected);
    }
    let login_user = new_user.id.clone();
    let login_password = new_user.password.clone();
    let ghost snapshot_user = new_user;
    let cr = user::create(store, new_user);
    let ghost mid = *store;
    proof {
        assert(create_outcome(*old(store), mid, snapshot_user, cr));
    }
    match cr {
        Err(e) => {
            return Err(e);
        },
        Ok(_) => {},
    }
    let credentials = Login { user: login_user, password: login_password };
    let lr = credentials.login(store);
    proof {
        assert(credentials == Login {
            user: snapshot_user.id,
            password: snapshot_user.password,
        });
        assert(login_outcome(mid, *store, credentials, lr));
    }
    match lr {
        Ok(Some(s)) => Ok(s),
        Ok(None) => Err(Error::WrongPassword),
        Err(e) => Err(e),
    }
}

} // verus!
