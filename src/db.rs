use vstd::prelude::*;

verus! {

/// An account as the backend records it.
#[derive(Clone, Debug)]
pub struct User {
    pub user_id: String,
    pub username: String,
    pub email: String,
    pub created_at: String,
}

impl User {
    pub fn new(user_id: String, username: String, email: String, created_at: String) -> (r: User)
        ensures
            r.user_id == user_id,
            r.username == username,
            r.email == email,
            r.created_at == created_at,
    {
        User { user_id, username, email, created_at }
    }
}

} // verus!
