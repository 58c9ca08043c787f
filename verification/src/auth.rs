//! Users and how they are let in.
use serde_json::Value;
use vstd::prelude::*;

verus! {

/// The statement that finds a user by name.
pub const USER_BY_NAME: &'static str = "select * from users where username = ? ";

/// The statement that finds a user by id.
pub const USER_BY_ID: &'static str = "select * from users where id = ?";

/// A user, with the document that the database holds of it.
pub struct User {
    pub id: String,
    pub pw_hash: Vec<u8>,
    pub raw: Value,
}

impl User {
    /// The id of the user.
    pub fn id(&self) -> (r: String)
        ensures
            r@ == self.id@,
    {
        self.id.clone()
    }

    /// The bytes that a session of the user is bound to: the password hash.
    pub fn session_auth_hash(&self) -> (r: &[u8])
        ensures
            r@ == self.pw_hash@,
    {
        self.pw_hash.as_slice()
    }
}

/// The hash that the given password has to match, where the user was found.
pub fn hash_to_verify(user: &Option<User>) -> (r: Option<&[u8]>)
    ensures
        match r {
            Some(hash) => user matches Some(u) && hash@ == u.pw_hash@,
            None => user is None,
        },
{
    match user {
        Some(user) => Some(user.session_auth_hash()),
        None => None,
    }
}

/// The user that is let in: the one that was found, where its password was
/// verified.
pub fn authenticate(user: Option<User>, verified: bool) -> (r: Option<User>)
    ensures
        r == if verified {
            user
        } else {
            None
        },
{
    if verified {
        user
    } else {
        None
    }
}

/// A user is let in exactly where one was found and the password was verified, and
/// it is the one that was found.
pub proof fn law_only_a_verified_user_is_let_in(
    user: Option<User>,
    verified: bool,
    r: Option<User>,
)
    requires
        call_ensures(authenticate, (user, verified), r),
    ensures
        r is Some <==> verified && user is Some,
        r is Some ==> r == user,
{
}

/// The hash that is verified is the one that the session of that user is bound to,
/// all of it.
pub proof fn law_verified_hash_is_that_of_the_user(
    user: User,
    none: Option<&[u8]>,
    hash: Option<&[u8]>,
    session: &[u8],
    id: String,
)
    requires
        call_ensures(hash_to_verify, (&None,), none),
        call_ensures(hash_to_verify, (&Some(user),), hash),
        call_ensures(User::session_auth_hash, (&user,), session),
        call_ensures(User::id, (&user,), id),
    ensures
        none is None,
        hash matches Some(h) && h@ == user.pw_hash@,
        session@ == user.pw_hash@,
        id@ == user.id@,
{
}

} // verus!
