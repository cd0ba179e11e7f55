//! Users, groups, sessions and the capability-based permission model.

use vstd::prelude::*;

use crate::comment::Comment;
use crate::crypto::{base64_of, base64_encode, bcrypt_check, bcrypt_hash, bcrypt_verify, now_unix,
    random_session_bytes, sha256_of, sha256_digest};
use crate::error::Error;
use crate::seq_util::{find_first, lemma_filter_unique_by, lemma_find_first_step,
    lemma_take_all, lemma_take_filter_step};
use crate::store::{find_group, find_session, find_user, Store};
use crate::text::{char_is_alphanumeric, unicode_alphanumeric};

verus! {

/// Represents a type of action that a user or group can be allowed or denied
/// permission for. `All` is a wildcard that satisfies every check.
#[derive(Clone, Copy, Debug, PartialEq, Eq, Structural)]
pub enum Permission {
    All,
    CreateArticle,
    EditArticle,
    DeleteArticle,
    EditForeignArticle,
    DeleteForeignArticle,
    CreateComment,
    EditComment,
    DeleteComment,
    EditForeignComment,
    DeleteForeignComment,
    CreateUser,
    EditForeignUser,
    DeleteForeignUser,
}

/// A named bundle of permissions that users are assigned to.
#[derive(Debug)]
pub struct Group {
    /// The group's name
    pub id: String,
    /// The permissions every member of the group holds
    pub permissions: Vec<Permission>,
}

/// The permission model's single rule: a group grants `p` when it lists `p`
/// itself or the `All` wildcard.
pub open spec fn group_allows(g: Group, p: Permission) -> bool {
    g.permissions@.contains(p) || g.permissions@.contains(Permission::All)
}

impl Group {
    pub fn new(id: String, permissions: Vec<Permission>) -> (g: Group)
        ensures
            g.id == id,
            g.permissions == permissions,
    {
        Group { id, permissions }
    }

    /// Checks whether this group grants the given permission, honouring the
    /// `All` wildcard.
    pub fn allows(&self, permission: Permission) -> (r: bool)
        ensures
            r == group_allows(*self, permission),
    {
        let mut i: usize = 0;
        let mut found = false;
        #[verifier::loop_isolation(false)]
        while i < self.permissions.len()
            invariant
                0 <= i <= self.permissions@.len(),
                found == (exists|j: int|
                    0 <= j < i && (self.permissions@[j] == permission || self.permissions@[j]
                        == Permission::All)),
            decreases self.permissions@.len() - i,
        {
            let p = self.permissions[i];
            if p == permission || p == Permission::All {
                found = true;
            }
            i += 1;
        }
        found
    }
}

/// A registered account.
#[derive(Debug)]
pub struct User {
    /// The unique username/login
    pub id: String,
    /// The hashed password
    pub hash: String,
    /// The salt for the password, for credentials made by the old scheme
    pub salt: Vec<u8>,
    /// The user's display name
    pub name: String,
    /// The user's email address
    pub email: String,
    /// The group the user belongs to
    pub group: String,
    /// Whether the password needs to be rehashed
    pub rehash: bool,
}

/// A to be created user.
///
/// NOTE: This structure contains the user's unencrypted password, handle it
/// with great care!
#[derive(Debug)]
pub struct NewUser {
    /// The username
    pub id: String,
    /// The users raw password
    pub password: String,
    /// The user's display name
    pub name: String,
    /// The user's email address
    pub email: String,
    /// The group to place the user in
    pub group: String,
    /// Fake phone number input to catch spambots that fill out hidden fields.
    pub phone: String,
}

/// The group new accounts land in when none was named.
pub fn default_group() -> (g: String)
    ensures
        g@ == "default"@,
{
    proof {
        reveal_strlit("default");
    }
    String::from_str("default")
}

/// Editable profile fields.
#[derive(Debug)]
pub struct UserProfile {
    pub name: String,
    pub email: String,
}

/// Login credentials.
#[derive(Debug)]
pub struct Login {
    pub user: String,
    pub password: String,
}

/// A password change request: the old password proves identity.
#[derive(Debug)]
pub struct PasswordChange {
    pub old: String,
    pub new: String,
}

/// An account deletion request: `purge` decides whether the account's
/// comments lose their content too, or only their ownership.
#[derive(Debug)]
pub struct UserDeletion {
    pub password: String,
    pub purge: bool,
}

/// An authenticated actor: an opaque token bound to one user until expiry.
#[derive(Debug)]
pub struct Session {
    pub id: String,
    pub user: String,
    pub expires: i64,
}

/// The first user row named `id`, if any.
#[verifier::loop_isolation(false)]
pub(crate) fn user_by_id<'a>(users: &'a Vec<User>, id: &str) -> (r: Option<&'a User>)
    ensures
        match r {
            Some(u) => find_user(users@, id@) == Some(*u),
            None => find_user(users@, id@) is None,
        },
{
    let ghost p = (|u: User| u.id@ == id@);
    proof {
        assert(users@.skip(0) =~= users@);
    }
    let mut i: usize = 0;
    while i < users.len()
        invariant
            0 <= i <= users@.len(),
            find_first(users@, p) == find_first(users@.skip(i as int), p),
        decreases users@.len() - i,
    {
        proof {
            lemma_find_first_step(users@, p, i as int);
        }
        if users[i].id.as_str().eq(id) {
            return Some(&users[i]);
        }
        i += 1;
    }
    proof {
        assert(users@.skip(i as int).len() == 0);
    }
    None
}

/// The first group row named `id`, if any.
#[verifier::loop_isolation(false)]
pub(crate) fn group_by_id<'a>(groups: &'a Vec<Group>, id: &str) -> (r: Option<&'a Group>)
    ensures
        match r {
            Some(g) => find_group(groups@, id@) == Some(*g),
            None => find_group(groups@, id@) is None,
        },
{
    let ghost p = (|g: Group| g.id@ == id@);
    proof {
        assert(groups@.skip(0) =~= groups@);
    }
    let mut i: usize = 0;
    while i < groups.len()
        invariant
            0 <= i <= groups@.len(),
            find_first(groups@, p) == find_first(groups@.skip(i as int), p),
        decreases groups@.len() - i,
    {
        proof {
            lemma_find_first_step(groups@, p, i as int);
        }
        if groups[i].id.as_str().eq(id) {
            return Some(&groups[i]);
        }
        i += 1;
    }
    proof {
        assert(groups@.skip(i as int).len() == 0);
    }
    None
}

/// The first session row carrying token `id`, if any.
#[verifier::loop_isolation(false)]
pub(crate) fn session_by_id<'a>(sessions: &'a Vec<Session>, id: &str) -> (r: Option<&'a Session>)
    ensures
        match r {
            Some(s) => find_session(sessions@, id@) == Some(*s),
            None => find_session(sessions@, id@) is None,
        },
{
    let ghost p = (|s: Session| s.id@ == id@);
    proof {
        assert(sessions@.skip(0) =~= sessions@);
    }
    let mut i: usize = 0;
    while i < sessions.len()
        invariant
            0 <= i <= sessions@.len(),
            find_first(sessions@, p) == find_first(sessions@.skip(i as int), p),
        decreases sessions@.len() - i,
    {
        proof {
            lemma_find_first_step(sessions@, p, i as int);
        }
        if sessions[i].id.as_str().eq(id) {
            return Some(&sessions[i]);
        }
        i += 1;
    }
    proof {
        assert(sessions@.skip(i as int).len() == 0);
    }
    None
}

/// Whether the user may perform `p`, answered from the groups table:
/// a missing group is corrupted data, not a denial.
pub open spec fn spec_user_allowed(groups: Seq<Group>, u: User, p: Permission) -> Result<
    bool,
    Error,
> {
    match find_group(groups, u.group@) {
        Some(g) => Ok(group_allows(g, p)),
        None => Err(Error::IntegrityFault),
    }
}

/// Whether the session's user may perform `p`: a missing user or group is
/// corrupted data, not a denial.
pub open spec fn spec_session_allowed(
    users: Seq<User>,
    groups: Seq<Group>,
    s: Session,
    p: Permission,
) -> Result<bool, Error> {
    match find_user(users, s.user@) {
        Some(u) => spec_user_allowed(groups, u, p),
        None => Err(Error::IntegrityFault),
    }
}

/// Whether the actor behind `session` may edit the account `target`: either
/// a blanket permission for foreign users, or being that very account.
pub open spec fn spec_user_editable(
    users: Seq<User>,
    groups: Seq<Group>,
    target: User,
    session: Option<Session>,
) -> Result<bool, Error> {
    match session {
        None => Ok(false),
        Some(s) => match spec_session_allowed(users, groups, s, Permission::EditForeignUser) {
            Err(e) => Err(e),
            Ok(b) => Ok(b || s.user@ == target.id@),
        },
    }
}

/// `a` carries the same account data as `b`: every field agrees, the salt
/// byte for byte. (Two byte vectors with equal contents need not be one
/// spec value, so copies of a user are compared field-wise.)
pub open spec fn user_like(a: User, b: User) -> bool {
    &&& a.id == b.id
    &&& a.hash == b.hash
    &&& a.salt@ == b.salt@
    &&& a.name == b.name
    &&& a.email == b.email
    &&& a.group == b.group
    &&& a.rehash == b.rehash
}

impl User {
    /// An exact copy of the account data.
    pub fn duplicate(&self) -> (r: User)
        ensures
            user_like(r, *self),
    {
        let mut salt: Vec<u8> = Vec::new();
        let mut i: usize = 0;
        #[verifier::loop_isolation(false)]
        while i < self.salt.len()
            invariant
                0 <= i <= self.salt@.len(),
                salt@ == self.salt@.take(i as int),
            decreases self.salt@.len() - i,
        {
            salt.push(self.salt[i]);
            proof {
                assert(salt@ =~= self.salt@.take(i as int + 1));
            }
            i += 1;
        }
        proof {
            assert(salt@ =~= self.salt@);
        }
        User {
            id: self.id.clone(),
            hash: self.hash.clone(),
            salt,
            name: self.name.clone(),
            email: self.email.clone(),
            group: self.group.clone(),
            rehash: self.rehash,
        }
    }

    /// Verify the supplied password matches the users, under the old scheme:
    /// the password and stored salt are digested, base64-encoded and held
    /// against the stored hash.
    pub fn verify_old(&self, password: &str) -> (r: Result<bool, Error>)
        ensures
            r == (match bcrypt_check(base64_of(sha256_of(password@, self.salt@)), self.hash@) {
                Some(b) => Ok::<bool, Error>(b),
                None => Err::<bool, Error>(Error::CryptoFailure),
            }),
    {
        let digest = sha256_digest(password, self.salt.as_slice());
        let encoded = base64_encode(digest.as_slice());
        bcrypt_verify(encoded.as_str(), self.hash.as_str())
    }

    /// Verify the supplied password matches the users.
    pub fn verify(&self, password: &str) -> (r: Result<bool, Error>)
        ensures
            r == (match bcrypt_check(password@, self.hash@) {
                Some(b) => Ok::<bool, Error>(b),
                None => Err::<bool, Error>(Error::CryptoFailure),
            }),
    {
        bcrypt_verify(password, self.hash.as_str())
    }

    /// Checks if a user has a given permission.
    pub fn allowed(&self, permission: Permission, store: &Store) -> (r: Result<bool, Error>)
        ensures
            r == spec_user_allowed(store.groups@, *self, permission),
    {
        match group_by_id(&store.groups, self.group.as_str()) {
            Some(g) => Ok(g.allows(permission)),
            None => Err(Error::IntegrityFault),
        }
    }

    /// Checks if a user can be edited by the given session.
    pub fn editable(&self, session: Option<&Session>, store: &Store) -> (r: Result<bool, Error>)
        ensures
            r == spec_user_editable(
                store.users@,
                store.groups@,
                *self,
                match session {
                    Some(s) => Some(*s),
                    None => None,
                },
            ),
    {
        match session {
            None => Ok(false),
            Some(s) => match s.allowed(Permission::EditForeignUser, store) {
                Err(e) => Err(e),
                Ok(b) => Ok(b || s.user.as_str().eq(self.id.as_str())),
            },
        }
    }
}

impl Session {
    /// Generates a new session: a fresh random token, bound to the user for
    /// thirty days.
    ///
    /// NB: Must be inserted into the store for the session to be valid.
    pub fn new(user: &str) -> (s: Session)
        ensures
            s.user@ == user@,
            s.id@.len() == 32,
    {
        let raw = random_session_bytes();
        let id = base64_encode(raw.as_slice());
        let now = now_unix();
        let expires = if now <= i64::MAX - 2592000 {
            now + 2592000
        } else {
            i64::MAX
        };
        Session { id, user: user.to_owned(), expires }
    }

    /// An exact copy; spelled out so that verified callers know the copy
    /// equals the original.
    pub fn duplicate(&self) -> (r: Session)
        ensures
            r == *self,
    {
        Session { id: self.id.clone(), user: self.user.clone(), expires: self.expires }
    }

    /// Get the session with the specified id.
    pub fn from_id(id: &str, store: &Store) -> (r: Option<Session>)
        ensures
            r == find_session(store.sessions@, id@),
    {
        match session_by_id(&store.sessions, id) {
            Some(s) => Some(s.duplicate()),
            None => None,
        }
    }

    /// The account this session authenticates.
    pub fn user(&self, store: &Store) -> (r: Result<User, Error>)
        ensures
            match find_user(store.users@, self.user@) {
                Some(u) => r matches Ok(ru) && user_like(ru, u),
                None => r == Err::<User, Error>(Error::NotFound),
            },
    {
        get(store, self.user.as_str())
    }

    /// Checks if the session's user has a given permission.
    pub fn allowed(&self, permission: Permission, store: &Store) -> (r: Result<bool, Error>)
        ensures
            r == spec_session_allowed(store.users@, store.groups@, *self, permission),
    {
        match user_by_id(&store.users, self.user.as_str()) {
            Some(u) => {
                let u = u.duplicate();
                u.allowed(permission, store)
            },
            None => Err(Error::IntegrityFault),
        }
    }
}

/// New passwords must bring at least this many characters.
pub const MIN_PASSWORD_LEN: usize = 8;

/// A username may use letters, digits, `-` and `_` alone.
pub open spec fn valid_username(s: Seq<char>) -> bool {
    forall|i: int|
        0 <= i < s.len() ==> #[trigger] unicode_alphanumeric(s[i]) || s[i] == '-' || s[i] == '_'
}

/// Check every character of a candidate username.
#[verifier::loop_isolation(false)]
fn username_ok(id: &str) -> (r: bool)
    ensures
        r == valid_username(id@),
{
    let n = id.unicode_len();
    let mut i: usize = 0;
    while i < n
        invariant
            0 <= i <= n,
            n == id@.len(),
            forall|j: int|
                0 <= j < i ==> #[trigger] unicode_alphanumeric(id@[j]) || id@[j] == '-' || id@[j]
                    == '_',
        decreases n - i,
    {
        let c = id.get_char(i);
        let ok = char_is_alphanumeric(c) || c == '-' || c == '_';
        if !ok {
            return false;
        }
        i += 1;
    }
    true
}

/// The position of the first user row named `id`, if any.
#[verifier::loop_isolation(false)]
fn user_index(users: &Vec<User>, id: &str) -> (r: Option<usize>)
    ensures
        match r {
            Some(ix) => {
                &&& ix < users@.len()
                &&& users@[ix as int].id@ == id@
                &&& forall|j: int| 0 <= j < ix ==> users@[j].id@ != id@
                &&& find_user(users@, id@) == Some(users@[ix as int])
            },
            None => find_user(users@, id@) is None && forall|j: int|
                0 <= j < users@.len() ==> (#[trigger] users@[j]).id@ != id@,
        },
{
    let ghost p = (|u: User| u.id@ == id@);
    proof {
        assert(users@.skip(0) =~= users@);
    }
    let mut i: usize = 0;
    while i < users.len()
        invariant
            0 <= i <= users@.len(),
            find_first(users@, p) == find_first(users@.skip(i as int), p),
            forall|j: int| 0 <= j < i ==> users@[j].id@ != id@,
        decreases users@.len() - i,
    {
        proof {
            lemma_find_first_step(users@, p, i as int);
        }
        if users[i].id.as_str().eq(id) {
            return Some(i);
        }
        i += 1;
    }
    proof {
        assert(users@.skip(i as int).len() == 0);
    }
    None
}

impl NewUser {
    /// Converts the structure into a proper user, hashing the password.
    /// The salt of the old scheme stays empty: fresh accounts never need a
    /// rehash.
    pub fn into_user(self) -> (r: Result<User, Error>)
        ensures
            match r {
                Ok(u) => {
                    &&& u.id == self.id
                    &&& bcrypt_check(self.password@, u.hash@) == Some(true)
                    &&& u.salt@.len() == 0
                    &&& u.name == self.name
                    &&& u.email == self.email
                    &&& u.group == self.group
                    &&& u.rehash == false
                },
                Err(e) => e == Error::CryptoFailure,
            },
    {
        let hash = match bcrypt_hash(self.password.as_str()) {
            Ok(h) => h,
            Err(e) => {
                return Err(e);
            },
        };
        Ok(
            User {
                id: self.id,
                hash,
                salt: Vec::new(),
                name: self.name,
                email: self.email,
                group: self.group,
                rehash: false,
            },
        )
    }
}

/// What creating an account does: validation errors and key conflicts leave
/// the store alone; success appends exactly one account whose hash verifies
/// against the chosen password.
pub open spec fn create_outcome(
    pre: Store,
    post: Store,
    user: NewUser,
    r: Result<usize, Error>,
) -> bool {
    if !valid_username(user.id@) {
        r == Err::<usize, Error>(Error::UsernameInvalid) && post == pre
    } else if user.password@.len() < MIN_PASSWORD_LEN {
        r == Err::<usize, Error>(Error::PasswordTooShort) && post == pre
    } else if find_user(pre.users@, user.id@) is Some {
        r == Err::<usize, Error>(Error::Conflict) && post == pre
    } else {
        match r {
            Ok(n) => {
                let nu = post.users@.last();
                &&& n == 1
                &&& post.users@ == pre.users@.push(nu)
                &&& nu.id == user.id
                &&& bcrypt_check(user.password@, nu.hash@) == Some(true)
                &&& nu.salt@.len() == 0
                &&& nu.name == user.name
                &&& nu.email == user.email
                &&& nu.group == user.group
                &&& nu.rehash == false
                &&& post.comments == pre.comments
                &&& post.articles == pre.articles
                &&& post.groups == pre.groups
                &&& post.sessions == pre.sessions
            },
            Err(e) => e == Error::CryptoFailure && post == pre,
        }
    }
}

/// Creates a user: the username must stick to letters, digits, `-` and `_`,
/// the password must not be too short, and the username must be free.
pub fn create(store: &mut Store, user: NewUser) -> (r: Result<usize, Error>)
    ensures
        create_outcome(*old(store), *final(store), user, r),
        old(store).wf() ==> final(store).wf(),
{
    // Check username characters
    if !username_ok(user.id.as_str()) {
        return Err(Error::UsernameInvalid);
    }
    // Check minimum password length
    if user.password.as_str().unicode_len() < MIN_PASSWORD_LEN {
        return Err(Error::PasswordTooShort);
    }
    if user_index(&store.users, user.id.as_str()).is_some() {
        return Err(Error::Conflict);
    }
    let ghost pre_users = store.users@;
    let nu = match user.into_user() {
        Ok(u) => u,
        Err(e) => {
            return Err(e);
        },
    };
    store.users.push(nu);
    proof {
        if old(store).wf() {
            assert forall|a: int, b: int|
                0 <= a < b < final(store).users@.len() implies final(store).users@[a].id@
                != final(store).users@[b].id@ by {
                if b == final(store).users@.len() - 1 {
                    assert(final(store).users@[a] == pre_users[a]);
                }
            }
        }
    }
    Ok(1)
}

/// The user table after a successful rehash at login: the account's hash is
/// replaced by one that verifies against the password, the old-scheme salt
/// is dropped, and the rehash flag cleared; every other row stands as it
/// was.
pub open spec fn rehash_applied(
    pre: Seq<User>,
    post: Seq<User>,
    id: Seq<char>,
    pw: Seq<char>,
) -> bool {
    exists|ix: int|
        {
            &&& 0 <= ix < pre.len()
            &&& (#[trigger] pre[ix]).id@ == id
            &&& forall|j: int| 0 <= j < ix ==> pre[j].id@ != id
            &&& post.len() == pre.len()
            &&& forall|j: int| 0 <= j < pre.len() && j != ix ==> post[j] == pre[j]
            &&& post[ix].id == pre[ix].id
            &&& bcrypt_check(pw, post[ix].hash@) == Some(true)
            &&& post[ix].salt@.len() == 0
            &&& post[ix].name == pre[ix].name
            &&& post[ix].email == pre[ix].email
            &&& post[ix].group == pre[ix].group
            &&& post[ix].rehash == false
        }
}

/// A fresh session for `user` was appended and nothing else changed in that
/// table.
pub open spec fn session_appended(
    pre: Seq<Session>,
    post: Seq<Session>,
    user: Seq<char>,
    r: Result<Option<Session>, Error>,
) -> bool {
    match r {
        Ok(Some(s)) => {
            &&& s.user@ == user
            &&& s.id@.len() == 32
            &&& post == pre.push(s)
        },
        _ => false,
    }
}

/// What the password check that does not touch the user table decides: an
/// unreadable hash is an error, a mismatch a quiet refusal, a match a fresh
/// session.
pub open spec fn plain_login_outcome(
    pre: Store,
    post: Store,
    login: Login,
    u: User,
    r: Result<Option<Session>, Error>,
) -> bool {
    match bcrypt_check(login.password@, u.hash@) {
        None => r == Err::<Option<Session>, Error>(Error::CryptoFailure) && post == pre,
        Some(false) => r == Ok::<Option<Session>, Error>(None) && post == pre,
        Some(true) => {
            &&& session_appended(pre.sessions@, post.sessions@, login.user@, r)
            &&& post.users == pre.users
            &&& post.comments == pre.comments
            &&& post.articles == pre.articles
            &&& post.groups == pre.groups
        },
    }
}

/// What logging in does to the store: an unknown name or a wrong password
/// changes nothing; an account flagged for rehash that still matches under
/// the old scheme gets its credential rewritten; every success appends one
/// session for the account.
pub open spec fn login_outcome(
    pre: Store,
    post: Store,
    login: Login,
    r: Result<Option<Session>, Error>,
) -> bool {
    match find_user(pre.users@, login.user@) {
        None => r == Ok::<Option<Session>, Error>(None) && post == pre,
        Some(u) => {
            if u.rehash {
                match bcrypt_check(base64_of(sha256_of(login.password@, u.salt@)), u.hash@) {
                    None => r == Err::<Option<Session>, Error>(Error::CryptoFailure) && post
                        == pre,
                    Some(true) => match r {
                        Err(e) => e == Error::CryptoFailure && post == pre,
                        Ok(Some(_)) => {
                            &&& session_appended(pre.sessions@, post.sessions@, login.user@, r)
                            &&& rehash_applied(pre.users@, post.users@, login.user@, login.password@)
                            &&& post.comments == pre.comments
                            &&& post.articles == pre.articles
                            &&& post.groups == pre.groups
                        },
                        Ok(None) => false,
                    },
                    Some(false) => plain_login_outcome(pre, post, login, u, r),
                }
            } else {
                plain_login_outcome(pre, post, login, u, r)
            }
        },
    }
}

impl Login {
    /// Create a session if username and password is valid. An account still
    /// carrying an old-scheme credential that matches is rehashed on the
    /// way.
    pub fn login(&self, store: &mut Store) -> (r: Result<Option<Session>, Error>)
        ensures
            login_outcome(*old(store), *final(store), *self, r),
            old(store).wf() ==> final(store).wf(),
    {
        let ix = match user_index(&store.users, self.user.as_str()) {
            None => {
                return Ok(None);
            },
            Some(ix) => ix,
        };
        let u = store.users[ix].duplicate();
        if u.rehash {
            let old_ok = match u.verify_old(self.password.as_str()) {
                Ok(b) => b,
                Err(e) => {
                    return Err(e);
                },
            };
            if old_ok {
                // Rehash password
                let new_hash = match bcrypt_hash(self.password.as_str()) {
                    Ok(h) => h,
                    Err(e) => {
                        return Err(e);
                    },
                };
                let prev = store.users.remove(ix);
                let replacement = User {
                    id: prev.id,
                    hash: new_hash,
                    salt: Vec::new(),
                    name: prev.name,
                    email: prev.email,
                    group: prev.group,
                    rehash: false,
                };
                store.users.insert(ix, replacement);
                proof {
                    let pre = old(store).users@;
                    let post = store.users@;
                    assert(post =~= pre.update(ix as int, post[ix as int]));
                    assert(pre[ix as int].id@ == self.user@);
                    assert(forall|j: int| 0 <= j < pre.len() && j != ix ==> post[j] == pre[j]);
                }
                // Create new session
                let session = Session::new(self.user.as_str());
                store.sessions.push(session.duplicate());
                return Ok(Some(session));
            }
        }
        match u.verify(self.password.as_str()) {
            Err(e) => Err(e),
            Ok(true) => {
                let session = Session::new(self.user.as_str());
                store.sessions.push(session.duplicate());
                Ok(Some(session))
            },
            Ok(false) => Ok(None),
        }
    }
}

/// Fetch one user row by name.
pub fn get(store: &Store, id: &str) -> (r: Result<User, Error>)
    ensures
        match find_user(store.users@, id@) {
            Some(u) => r matches Ok(ru) && user_like(ru, u),
            None => r == Err::<User, Error>(Error::NotFound),
        },
{
    match user_by_id(&store.users, id) {
        Some(u) => Ok(u.duplicate()),
        None => Err(Error::NotFound),
    }
}

/// Drop the session with the given token; returns how many rows went.
#[verifier::loop_isolation(false)]
pub fn logout(store: &mut Store, session: &str) -> (r: usize)
    ensures
        final(store).sessions@ == old(store).sessions@.filter(
            |s: Session| s.id@ != session@,
        ),
        r as int == old(store).sessions@.len() - final(store).sessions@.len(),
        final(store).articles == old(store).articles,
        final(store).comments == old(store).comments,
        final(store).users == old(store).users,
        final(store).groups == old(store).groups,
        old(store).wf() ==> final(store).wf(),
{
    let ghost keep = (|s: Session| s.id@ != session@);
    let mut rows: Vec<Session> = Vec::new();
    let mut i: usize = 0;
    while i < store.sessions.len()
        invariant
            0 <= i <= store.sessions@.len(),
            rows@ == store.sessions@.take(i as int).filter(keep),
        decreases store.sessions@.len() - i,
    {
        proof {
            lemma_take_filter_step(store.sessions@, keep, i as int);
        }
        if !store.sessions[i].id.as_str().eq(session) {
            rows.push(store.sessions[i].duplicate());
        }
        i += 1;
    }
    proof {
        lemma_take_all(store.sessions@);
        store.sessions@.lemma_filter_len(keep);
    }
    let kept = rows.len();
    let total = store.sessions.len();
    store.sessions = rows;
    total - kept
}

/// The user table after a profile edit: the account's display name and
/// email follow the form, all else stands.
pub open spec fn profile_applied(
    pre: Seq<User>,
    post: Seq<User>,
    id: Seq<char>,
    profile: UserProfile,
) -> bool {
    exists|ix: int|
        {
            &&& 0 <= ix < pre.len()
            &&& (#[trigger] pre[ix]).id@ == id
            &&& forall|j: int| 0 <= j < ix ==> pre[j].id@ != id
            &&& post.len() == pre.len()
            &&& forall|j: int| 0 <= j < pre.len() && j != ix ==> post[j] == pre[j]
            &&& post[ix].id == pre[ix].id
            &&& post[ix].hash == pre[ix].hash
            &&& post[ix].salt == pre[ix].salt
            &&& post[ix].name == profile.name
            &&& post[ix].email == profile.email
            &&& post[ix].group == pre[ix].group
            &&& post[ix].rehash == pre[ix].rehash
        }
}

/// Store the profile form's display name and email on the account; returns
/// how many rows changed.
pub fn edit_profile(store: &mut Store, id: &str, profile: &UserProfile) -> (r: usize)
    ensures
        match find_user(old(store).users@, id@) {
            None => r == 0 && *final(store) == *old(store),
            Some(_) => r == 1 && profile_applied(
                old(store).users@,
                final(store).users@,
                id@,
                *profile,
            ),
        },
        final(store).articles == old(store).articles,
        final(store).comments == old(store).comments,
        final(store).groups == old(store).groups,
        final(store).sessions == old(store).sessions,
        old(store).wf() ==> final(store).wf(),
{
    let ix = match user_index(&store.users, id) {
        None => {
            return 0;
        },
        Some(ix) => ix,
    };
    let prev = store.users.remove(ix);
    let replacement = User {
        id: prev.id,
        hash: prev.hash,
        salt: prev.salt,
        name: profile.name.clone(),
        email: profile.email.clone(),
        group: prev.group,
        rehash: prev.rehash,
    };
    store.users.insert(ix, replacement);
    proof {
        let pre = old(store).users@;
        let post = store.users@;
        assert(post =~= pre.update(ix as int, post[ix as int]));
        assert(pre[ix as int].id@ == id@);
        assert(forall|j: int| 0 <= j < pre.len() && j != ix ==> post[j] == pre[j]);
    }
    1
}

/// The user table after a password change: only the account's hash moved,
/// to one that verifies against the new password.
pub open spec fn password_applied(
    pre: Seq<User>,
    post: Seq<User>,
    id: Seq<char>,
    new_password: Seq<char>,
) -> bool {
    exists|ix: int|
        {
            &&& 0 <= ix < pre.len()
            &&& (#[trigger] pre[ix]).id@ == id
            &&& forall|j: int| 0 <= j < ix ==> pre[j].id@ != id
            &&& post.len() == pre.len()
            &&& forall|j: int| 0 <= j < pre.len() && j != ix ==> post[j] == pre[j]
            &&& post[ix].id == pre[ix].id
            &&& bcrypt_check(new_password, post[ix].hash@) == Some(true)
            &&& post[ix].salt == pre[ix].salt
            &&& post[ix].name == pre[ix].name
            &&& post[ix].email == pre[ix].email
            &&& post[ix].group == pre[ix].group
            &&& post[ix].rehash == pre[ix].rehash
        }
}

/// Replace the account's credential, provided the old password still
/// matches: a mismatch answers `false` and changes nothing.
pub fn change_password(store: &mut Store, id: &str, change: &PasswordChange) -> (r: Result<
    bool,
    Error,
>)
    ensures
        match find_user(old(store).users@, id@) {
            None => r == Err::<bool, Error>(Error::NotFound) && *final(store) == *old(store),
            Some(u) => match bcrypt_check(change.old@, u.hash@) {
                None => r == Err::<bool, Error>(Error::CryptoFailure) && *final(store) == *old(
                    store,
                ),
                Some(false) => r == Ok::<bool, Error>(false) && *final(store) == *old(store),
                Some(true) => match r {
                    Err(e) => e == Error::CryptoFailure && *final(store) == *old(store),
                    Ok(true) => password_applied(
                        old(store).users@,
                        final(store).users@,
                        id@,
                        change.new@,
                    ) && final(store).articles == old(store).articles && final(store).comments
                        == old(store).comments && final(store).groups == old(store).groups
                        && final(store).sessions == old(store).sessions,
                    Ok(false) => false,
                },
            },
        },
        old(store).wf() ==> final(store).wf(),
{
    let ix = match user_index(&store.users, id) {
        None => {
            return Err(Error::NotFound);
        },
        Some(ix) => ix,
    };
    // Verify password
    let matches = match bcrypt_verify(change.old.as_str(), store.users[ix].hash.as_str()) {
        Ok(b) => b,
        Err(e) => {
            return Err(e);
        },
    };
    if !matches {
        return Ok(false);
    }
    // Make new hash
    let new_hash = match bcrypt_hash(change.new.as_str()) {
        Ok(h) => h,
        Err(e) => {
            return Err(e);
        },
    };
    // Write new values to the store
    let prev = store.users.remove(ix);
    let replacement = User {
        id: prev.id,
        hash: new_hash,
        salt: prev.salt,
        name: prev.name,
        email: prev.email,
        group: prev.group,
        rehash: prev.rehash,
    };
    store.users.insert(ix, replacement);
    proof {
        let pre = old(store).users@;
        let post = store.users@;
        assert(post =~= pre.update(ix as int, post[ix as int]));
        assert(pre[ix as int].id@ == id@);
        assert(forall|j: int| 0 <= j < pre.len() && j != ix ==> post[j] == pre[j]);
    }
    Ok(true)
}

/// One comment row after its author's account was deleted: authored rows
/// lose their owner, show the anonymization sentinel, are hidden, and — on
/// a full purge — lose their content too; other rows stand untouched.
pub open spec fn comment_after_author_purge(
    pre: Comment,
    post: Comment,
    id: Seq<char>,
    purge: bool,
) -> bool {
    if pre.author matches Some(a) && a@ == id {
        &&& post.id == pre.id
        &&& post.parent == pre.parent
        &&& post.article == pre.article
        &&& post.author is None
        &&& post.name matches Some(nm) && nm@ == "[deleted]"@
        &&& (if purge {
            post.content@ == Seq::<char>::empty()
        } else {
            post.content == pre.content
        })
        &&& post.date == pre.date
        &&& post.visible == false
    } else {
        post == pre
    }
}

/// Delete an account, its sessions and its ownership of comments, after the
/// password confirms the request. With `purge` set the account's comments
/// lose their text as well; either way they are anonymized and hidden in
/// one sweep.
#[verifier::loop_isolation(false)]
pub fn delete(store: &mut Store, id: &str, deletion: &UserDeletion) -> (r: Result<(), Error>)
    ensures
        match find_user(old(store).users@, id@) {
            None => r == Err::<(), Error>(Error::NotFound) && *final(store) == *old(store),
            Some(u) => match bcrypt_check(deletion.password@, u.hash@) {
                None => r == Err::<(), Error>(Error::CryptoFailure) && *final(store) == *old(
                    store,
                ),
                Some(false) => r == Err::<(), Error>(Error::WrongPassword) && *final(store)
                    == *old(store),
                Some(true) => {
                    &&& r == Ok::<(), Error>(())
                    &&& final(store).comments@.len() == old(store).comments@.len()
                    &&& forall|j: int|
                        0 <= j < old(store).comments@.len() ==> comment_after_author_purge(
                            old(store).comments@[j],
                            final(store).comments@[j],
                            id@,
                            deletion.purge,
                        )
                    &&& final(store).sessions@ == old(store).sessions@.filter(
                        |s: Session| s.user@ != id@,
                    )
                    &&& exists|ix: int|
                        {
                            &&& 0 <= ix < old(store).users@.len()
                            &&& (#[trigger] old(store).users@[ix]).id@ == id@
                            &&& forall|j: int|
                                0 <= j < ix ==> old(store).users@[j].id@ != id@
                            &&& final(store).users@ == old(store).users@.remove(ix)
                        }
                    &&& final(store).articles == old(store).articles
                    &&& final(store).groups == old(store).groups
                },
            },
        },
        old(store).wf() ==> final(store).wf(),
{
    let ix = match user_index(&store.users, id) {
        None => {
            return Err(Error::NotFound);
        },
        Some(ix) => ix,
    };
    // Verify password
    let matches = match bcrypt_verify(deletion.password.as_str(), store.users[ix].hash.as_str()) {
        Ok(b) => b,
        Err(e) => {
            return Err(e);
        },
    };
    if !matches {
        return Err(Error::WrongPassword);
    }
    // Anonymize the account's comments, blanking their text on a full purge
    let mut rows: Vec<Comment> = Vec::new();
    let mut i: usize = 0;
    while i < store.comments.len()
        invariant
            0 <= i <= store.comments@.len(),
            rows@.len() == i,
            forall|j: int|
                0 <= j < i ==> comment_after_author_purge(
                    store.comments@[j],
                    rows@[j],
                    id@,
                    deletion.purge,
                ),
        decreases store.comments@.len() - i,
    {
        let c = &store.comments[i];
        let owned = match &c.author {
            Some(a) => a.as_str().eq(id),
            None => false,
        };
        if owned {
            rows.push(
                Comment {
                    id: c.id,
                    parent: c.parent,
                    article: c.article,
                    author: None,
                    name: Some(String::from_str("[deleted]")),
                    content: if deletion.purge {
                        String::new()
                    } else {
                        c.content.clone()
                    },
                    date: c.date,
                    visible: false,
                },
            );
        } else {
            rows.push(c.duplicate());
        }
        i += 1;
    }
    store.comments = rows;
    // Delete all sessions of the account
    let ghost keep = (|s: Session| s.user@ != id@);
    let mut kept: Vec<Session> = Vec::new();
    let mut k: usize = 0;
    while k < store.sessions.len()
        invariant
            0 <= k <= store.sessions@.len(),
            kept@ == store.sessions@.take(k as int).filter(keep),
        decreases store.sessions@.len() - k,
    {
        proof {
            lemma_take_filter_step(store.sessions@, keep, k as int);
        }
        if !store.sessions[k].user.as_str().eq(id) {
            kept.push(store.sessions[k].duplicate());
        }
        k += 1;
    }
    proof {
        lemma_take_all(store.sessions@);
    }
    store.sessions = kept;
    // Delete the account row itself
    store.users.remove(ix);
    proof {
        if old(store).wf() {
            let pre = old(store).users@;
            let post = store.users@;
            assert forall|a: int, b: int| 0 <= a < b < post.len() implies post[a].id@
                != post[b].id@ by {
                let a0 = if a < ix { a } else { a + 1 };
                let b0 = if b < ix { b } else { b + 1 };
                assert(post[a] == pre[a0] && post[b] == pre[b0]);
            }
            assert forall|a: int, b: int|
                0 <= a < b < store.comments@.len() implies store.comments@[a].id
                != store.comments@[b].id by {
                assert(comment_after_author_purge(
                    old(store).comments@[a],
                    store.comments@[a],
                    id@,
                    deletion.purge,
                ));
                assert(comment_after_author_purge(
                    old(store).comments@[b],
                    store.comments@[b],
                    id@,
                    deletion.purge,
                ));
            }
        }
    }
    Ok(())
}

/// Attach the actor a request's session cookie proves, dropping an expired
/// session on the way: the request then proceeds without one.
pub fn resolve_session(store: &mut Store, cookie: Option<&str>, now: i64) -> (r: Option<Session>)
    ensures
        match cookie {
            None => r is None && *final(store) == *old(store),
            Some(id) => match find_session(old(store).sessions@, id@) {
                None => r is None && *final(store) == *old(store),
                Some(s) => if s.expires < now {
                    &&& r is None
                    &&& final(store).sessions@ == old(store).sessions@.filter(
                        |x: Session| x.id@ != id@,
                    )
                    &&& final(store).articles == old(store).articles
                    &&& final(store).comments == old(store).comments
                    &&& final(store).users == old(store).users
                    &&& final(store).groups == old(store).groups
                } else {
                    r == Some(s) && *final(store) == *old(store)
                },
            },
        },
        old(store).wf() ==> final(store).wf(),
{
    let id = match cookie {
        None => {
            return None;
        },
        Some(id) => id,
    };
    let session = match Session::from_id(id, store) {
        None => {
            return None;
        },
        Some(s) => s,
    };
    if session.expires < now {
        // Delete expired session
        logout(store, id);
        return None;
    }
    Some(session)
}

/// How many users are registered.
pub fn count(store: &Store) -> (r: i64)
    requires
        store.users@.len() <= i64::MAX,
    ensures
        r as int == store.users@.len(),
{
    store.users.len() as i64
}

} // verus!
