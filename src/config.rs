use vstd::prelude::*;

verus! {

/// The settings the bot runs with.
#[derive(Debug)]
pub struct Config {
    pub db_path: String,
    pub bot_name: String,
    pub bot_email: String,
    pub bot_pwd: String,
    pub access_token: String,
    pub store_repo_name: String,
    pub index_repo_name: String,
    pub index_issue_number: String,
    pub index_checkout: String,
    pub store_checkout: String,
    pub store_max_size: u64,
}

} // verus!
