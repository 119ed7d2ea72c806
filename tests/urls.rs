use elba_bot::manifest::{Manifest, PackageName};
use elba_bot::{
    authenticated_user, decimal_string, github_raw_url, github_repo_url, issue_comment,
    issue_comments, tarball_name, text_less, user_profile, Identifier, Version,
};

fn sample() -> Manifest {
    Manifest {
        name: PackageName { group: "grp".to_owned(), name: "pkg".to_owned(), text: "Grp/Pkg".to_owned() },
        version: Version { major: 0, minor: 3, patch: 12, pre: vec![Identifier::AlphaNumeric("rc".to_owned()), Identifier::Numeric(2)], build: vec![] },
        description: None,
        dependencies: vec![],
    }
}

#[test]
fn github_urls() {
    assert_eq!(user_profile("alice"), "https://github.com/alice");
    assert_eq!(authenticated_user(), "https://api.github.com/user");
    assert_eq!(issue_comments("org/index", "12"), "https://api.github.com/repos/org/index/issues/12/comments");
    assert_eq!(issue_comment("org/index", 4567), "https://api.github.com/repos/org/index/issues/comments/4567");
    assert_eq!(issue_comment("o/i", -3), "https://api.github.com/repos/o/i/issues/comments/-3");
    assert_eq!(issue_comment("o/i", i64::MIN), format!("https://api.github.com/repos/o/i/issues/comments/{}", i64::MIN));
    assert_eq!(github_repo_url("org/store"), "https://github.com/org/store.git");
}

#[test]
fn artifact_names() {
    let m = sample();
    assert_eq!(tarball_name(&m), "grp_pkg_0.3.12-rc.2.tar.gz");
    assert_eq!(
        github_raw_url("org/store", "abc123", &m),
        "https://github.com/org/store/blob/abc123/grp/pkg/grp_pkg_0.3.12-rc.2.tar.gz?raw=true"
    );
}

#[test]
fn decimal_and_text_order() {
    assert_eq!(decimal_string(0), "0");
    assert_eq!(decimal_string(u64::MAX), "18446744073709551615");
    assert!(text_less("abc", "abd"));
    assert!(text_less("ab", "abc"));
    assert!(!text_less("b", "abc"));
    assert!(!text_less("x", "x"));
}
