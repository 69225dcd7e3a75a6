//! A user record with defaulted fields and an opaque login timestamp.

use vstd::prelude::*;
use std::time::Instant;

verus! {

#[verifier::external_type_specification]
#[verifier::external_body]
pub struct ExInstant(Instant);

/// Relies on `std::time::Instant::now`. The returned timestamp depends on
/// the clock, so nothing is stated of its value; it is carried opaquely.
#[verifier::external_body]
fn instant_now() -> Instant {
    Instant::now()
}

/// An account holder: active flag, names, and the opaque time of the last
/// login.
#[derive(Debug)]
pub struct User {
    pub active: bool,
    pub username: String,
    pub email: String,
    pub last_logged_in: Instant,
}

/// A new user from an email and a username; new users default to active,
/// with the login timestamp taken now.
pub fn create_user(email: String, username: String) -> (user: User)
    ensures
        user.active == true,
        user.username@ == username@,
        user.email@ == email@,
{
    let user = User { active: true, username, email, last_logged_in: instant_now() };
    user
}

/// The fixed example user.
pub fn get_user1() -> (user: User)
    ensures
        user.active == true,
        user.username@ == "judithwombat"@,
        user.email@ == "judith.wombat@bufo.io"@,
{
    let username = String::from_str("judithwombat");
    let email = String::from_str("judith.wombat@bufo.io");
    create_user(email, username)
}

} // verus!
