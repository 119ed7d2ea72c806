use vstd::prelude::*;

use crate::text::{decimal, push_decimal, push_str, string_from_chars};

verus! {

/// The ways a request or a publish attempt can fail.
#[derive(Debug, PartialEq, Eq)]
pub enum Error {
    Github(String),
    NoInitialCommit,
    MalformedCommand,
    NamespaceIsTaken { group: String, owner: String },
    PackageExists { package: String, version: String },
    PackageOversize { size: u64, limit: u64 },
    GitPush(String),
    NonIndexDependency { dependency: String, resolution: String },
    DependencyNotFound { dependency: String },
    RepoIsBare,
    DuplicatePackage,
    DuplicateComment,
    DownloadVerification { local_cksum: String, download_cksum: String },
}

} // verus!

verus! {

/// The message shown for an error.
pub open spec fn message(e: Error) -> Seq<char> {
    match e {
        Error::Github(s) => "Gibhub API error: "@ + s@,
        Error::NoInitialCommit => "No initial commit in remote index"@,
        Error::MalformedCommand => "Command could not be understood"@,
        Error::NamespaceIsTaken { group, owner } => "Namespace `"@ + group@ + "` has been taken by @"@
            + owner@,
        Error::PackageExists { package, version } => "Package `"@ + package@ + seq![' '] + version@
            + "` has been published"@,
        Error::PackageOversize { size, limit } => "Package tarball is too big ("@ + decimal(
            size as nat,
        ) + " bytes) while the maximum size is "@ + decimal(limit as nat),
        Error::GitPush(s) => "Git push failed: "@ + s@,
        Error::NonIndexDependency { dependency, resolution } => "Package contains non-index dependency `"@
            + dependency@ + "`("@ + resolution@ + seq![')'],
        Error::DependencyNotFound { dependency } => "Package have dependency `"@ + dependency@
            + "` that do not exist in index"@,
        Error::RepoIsBare => "Repository is bare"@,
        Error::DuplicatePackage => "Package version is already recorded"@,
        Error::DuplicateComment => "Comment is already recorded"@,
        Error::DownloadVerification { local_cksum, download_cksum } =>
            "Tarball checksum mismatched between local "@ + local_cksum@ + " and store "@
            + download_cksum@,
    }
}

impl Error {
    /// The message shown for the error.
    pub fn to_string(&self) -> (r: String)
        ensures
            r@ == message(*self),
    {
        let mut v: Vec<char> = Vec::new();
        match self {
            Error::Github(s) => {
                push_str(&mut v, "Gibhub API error: ");
                push_str(&mut v, s.as_str());
            },
            Error::NoInitialCommit => push_str(&mut v, "No initial commit in remote index"),
            Error::MalformedCommand => push_str(&mut v, "Command could not be understood"),
            Error::NamespaceIsTaken { group, owner } => {
                push_str(&mut v, "Namespace `");
                push_str(&mut v, group.as_str());
                push_str(&mut v, "` has been taken by @");
                push_str(&mut v, owner.as_str());
            },
            Error::PackageExists { package, version } => {
                push_str(&mut v, "Package `");
                push_str(&mut v, package.as_str());
                v.push(' ');
                push_str(&mut v, version.as_str());
                push_str(&mut v, "` has been published");
            },
            Error::PackageOversize { size, limit } => {
                push_str(&mut v, "Package tarball is too big (");
                push_decimal(&mut v, *size);
                push_str(&mut v, " bytes) while the maximum size is ");
                push_decimal(&mut v, *limit);
            },
            Error::GitPush(s) => {
                push_str(&mut v, "Git push failed: ");
                push_str(&mut v, s.as_str());
            },
            Error::NonIndexDependency { dependency, resolution } => {
                push_str(&mut v, "Package contains non-index dependency `");
                push_str(&mut v, dependency.as_str());
                push_str(&mut v, "`(");
                push_str(&mut v, resolution.as_str());
                v.push(')');
            },
            Error::DependencyNotFound { dependency } => {
                push_str(&mut v, "Package have dependency `");
                push_str(&mut v, dependency.as_str());
                push_str(&mut v, "` that do not exist in index");
            },
            Error::RepoIsBare => push_str(&mut v, "Repository is bare"),
            Error::DuplicatePackage => push_str(&mut v, "Package version is already recorded"),
            Error::DuplicateComment => push_str(&mut v, "Comment is already recorded"),
            Error::DownloadVerification { local_cksum, download_cksum } => {
                push_str(&mut v, "Tarball checksum mismatched between local ");
                push_str(&mut v, local_cksum.as_str());
                push_str(&mut v, " and store ");
                push_str(&mut v, download_cksum.as_str());
            },
        }
        assert(v@ =~= message(*self));
        string_from_chars(&v)
    }
}

} // verus!
