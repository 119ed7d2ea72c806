use vstd::prelude::*;

pub mod url;

verus! {

/// The account behind a comment.
#[derive(Debug)]
pub struct User {
    pub id: i64,
    pub name: String,
}

/// A comment on the tracking issue; `created_at` is in seconds since the
/// Unix epoch.
#[derive(Debug)]
pub struct Comment {
    pub id: i64,
    pub user: User,
    pub body: String,
    pub created_at: i64,
}

/// A poll's answer with the server's time (seconds since the Unix epoch).
#[derive(Debug)]
pub struct GithubResponse<T> {
    pub val: T,
    pub date: i64,
}

impl Clone for User {
    fn clone(&self) -> (r: Self)
        ensures
            r == *self,
    {
        User { id: self.id, name: self.name.clone() }
    }
}

impl Clone for Comment {
    fn clone(&self) -> (r: Self)
        ensures
            r == *self,
    {
        Comment {
            id: self.id,
            user: self.user.clone(),
            body: self.body.clone(),
            created_at: self.created_at,
        }
    }
}

} // verus!
