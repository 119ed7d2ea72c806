use vstd::prelude::*;

use crate::text::{push_signed, push_str, signed_decimal, string_from_chars};

verus! {

/// The profile page of a user.
pub fn user_profile(user_name: &str) -> (r: String)
    ensures
        r@ == "https://github.com/"@ + user_name@,
{
    let mut v: Vec<char> = Vec::new();
    push_str(&mut v, "https://github.com/");
    push_str(&mut v, user_name);
    string_from_chars(&v)
}

/// The API endpoint of the authenticated user.
pub fn authenticated_user() -> (r: String)
    ensures
        r@ == "https://api.github.com/user"@,
{
    let mut v: Vec<char> = Vec::new();
    push_str(&mut v, "https://api.github.com/user");
    assert(v@ =~= "https://api.github.com/user"@);
    string_from_chars(&v)
}

/// The API endpoint of the comments on an issue.
pub fn issue_comments(repo: &str, issue_number: &str) -> (r: String)
    ensures
        r@ == "https://api.github.com/repos/"@ + repo@ + "/issues/"@ + issue_number@
            + "/comments"@,
{
    let mut v: Vec<char> = Vec::new();
    push_str(&mut v, "https://api.github.com/repos/");
    push_str(&mut v, repo);
    push_str(&mut v, "/issues/");
    push_str(&mut v, issue_number);
    push_str(&mut v, "/comments");
    string_from_chars(&v)
}

/// The API endpoint of one issue comment.
pub fn issue_comment(repo: &str, comment_id: i64) -> (r: String)
    ensures
        r@ == "https://api.github.com/repos/"@ + repo@ + "/issues/comments/"@ + signed_decimal(
            comment_id as int,
        ),
{
    let mut v: Vec<char> = Vec::new();
    push_str(&mut v, "https://api.github.com/repos/");
    push_str(&mut v, repo);
    push_str(&mut v, "/issues/comments/");
    push_signed(&mut v, comment_id);
    string_from_chars(&v)
}

} // verus!
