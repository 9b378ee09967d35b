use vstd::prelude::*;

verus! {

pub struct User {
    pub username: String,
    pub password: String,
}

pub struct UserService {}

impl UserService {
    pub fn new() -> (s: UserService) {
        UserService {}
    }
}

} // verus!
