//! A chat-operated publishing bot for a package registry: the verified core.
//!
//! Collaborators mention the bot on a tracking issue; the bot checks the
//! request, uploads the built artifact into a content-addressed store, records
//! it in a catalog index and keeps a ledger of users, comments and packages.
//! Everything that touches the network, the disk or git lives outside this
//! library and hands it plain values.

pub mod command;
pub mod config;
pub mod controller;
pub mod database;
pub mod error;
pub mod github;
pub mod index;
pub mod manifest;
pub mod pipeline;
pub mod publish;
pub mod report;
pub mod store;
pub mod text;
pub mod version;
pub mod workspace;

pub use command::{parse_command, Command, Parsed};
pub use config::Config;
pub use database::Database;
pub use error::Error;
pub use github::url::{authenticated_user, issue_comment, issue_comments, user_profile};
pub use text::{decimal_string, text_less};
pub use version::{Identifier, Version};
pub use workspace::{github_raw_url, github_repo_url, tarball_name};
