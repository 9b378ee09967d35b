use vstd::prelude::*;
use vstd::string::StringExecFns;

verus! {

pub type AccessToken = String;

pub struct User {
    pub username: String,
    pub password: String,
}

pub struct UserService {}

/// The token handed out on a successful sign-in.
pub open spec fn issued_token() -> Seq<char> {
    "asdsadsad"@
}

impl UserService {
    pub fn new() -> (s: UserService) {
        UserService {}
    }

    /// Signs in: the single account `admin` with password `admin` gets the token;
    /// any other credentials get nothing.
    pub fn login(user: &User) -> (r: Option<AccessToken>)
        ensures
            r is Some <==> (user.username@ == "admin"@ && user.password@ == "admin"@),
            r matches Some(t) ==> t@ == issued_token(),
    {
        let admin = String::from_str("admin");
        if user.username.eq(&admin) && user.password.eq(&admin) {
            return Some(String::from_str("asdsadsad"));
        }
        None
    }
}

} // verus!
