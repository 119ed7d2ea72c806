use elba_bot::database::{Database, Package, User};
use elba_bot::manifest::{DepReq, Dependency, Manifest, PackageName};
use elba_bot::{Identifier, Version};

fn v(major: u64, minor: u64, patch: u64) -> Version {
    Version { major, minor, patch, pre: vec![], build: vec![] }
}

fn name(group: &str, name: &str) -> PackageName {
    PackageName { group: group.to_owned(), name: name.to_owned(), text: format!("{}/{}", group, name) }
}

fn manifest(group: &str, pkg: &str, version: Version) -> Manifest {
    Manifest { name: name(group, pkg), version, description: None, dependencies: vec![] }
}

fn user(id: i64, n: &str) -> User {
    User { id, name: n.to_owned() }
}

fn db_with(group: &str, pkg: &str, version: Version, owner: &User) -> Database {
    let mut db = Database::new();
    db.insert_user(owner.clone());
    db.insert_package(Package {
        group: group.to_owned(),
        name: pkg.to_owned(),
        version,
        description: None,
        user_id: owner.id,
    })
    .unwrap();
    db
}

fn registry_dep(group: &str, pkg: &str, req: &str) -> Dependency {
    Dependency { name: name(group, pkg), req: DepReq::Registry(req.to_owned()) }
}

fn pre(parts: &[&str]) -> Vec<Identifier> {
    parts
        .iter()
        .map(|p| match p.parse::<u64>() {
            Ok(n) => Identifier::Numeric(n),
            Err(_) => Identifier::AlphaNumeric((*p).to_owned()),
        })
        .collect()
}

use elba_bot::controller::{handle_comment, render_readme_package_list, Action, Poller};
use elba_bot::database::Comment as Row;
use elba_bot::github::{Comment, User as Author};
use elba_bot::index::{fill_readme, join_lines, Entries, IndexEntry};
use elba_bot::publish::{check_publish_permission, commit_publish};
use elba_bot::report::{PublishState, PublishStep, Report};
use elba_bot::store::{check_size, checksum, commit_hash_text, verify_download, Location};
use elba_bot::workspace::verify_upload;
use elba_bot::Error;

fn comment(id: i64, user_id: i64, body: &str, created_at: i64) -> Comment {
    Comment {
        id,
        user: Author { id: user_id, name: "alice".to_owned() },
        body: body.to_owned(),
        created_at,
    }
}

fn location(url: &str) -> Location {
    Location { url: url.to_owned(), checksum: "00".to_owned() }
}

#[test]
fn replayed_comment_is_dispatched_once() {
    let mut db = Database::new();
    let c = comment(7, 1, "@bot /publish https://x/y.git v1", 1000);
    let first = handle_comment(&mut db, &c, 1000, 99, "bot");
    assert!(matches!(first, Action::Publish { ref git, ref refname }
        if git == "https://x/y.git" && refname.as_deref() == Some("v1")));
    assert!(db.query_comment(7).is_some());
    assert_eq!(db.query_user(1).unwrap().name, "alice");
    let second = handle_comment(&mut db, &c, 1000, 99, "bot");
    assert!(matches!(second, Action::Skip));
}

#[test]
fn comments_skipped_when_old_or_own() {
    let mut db = Database::new();
    let old = comment(1, 1, "@bot /publish a", 939);
    assert!(matches!(handle_comment(&mut db, &old, 1000, 99, "bot"), Action::Skip));
    let edge = comment(2, 1, "@bot /publish a", 940);
    assert!(matches!(handle_comment(&mut db, &edge, 1000, 99, "bot"), Action::Publish { .. }));
    let own = comment(3, 99, "@bot /publish a", 1000);
    assert!(matches!(handle_comment(&mut db, &own, 1000, 99, "bot"), Action::Skip));
    assert!(db.query_comment(1).is_none());
    assert!(db.query_comment(3).is_none());
}

#[test]
fn comments_are_ledgered_before_parsing() {
    let mut db = Database::new();
    let plain = comment(4, 1, "thanks!", 1000);
    assert!(matches!(handle_comment(&mut db, &plain, 1000, 99, "bot"), Action::Ignore));
    let bad = comment(5, 1, "@bot /publis a", 1000);
    assert!(matches!(handle_comment(&mut db, &bad, 1000, 99, "bot"), Action::ReportMalformed));
    assert_eq!(db.query_comment(4).unwrap().body, "thanks!");
    assert_eq!(db.query_comment(5).unwrap().user_id, 1);
}

#[test]
fn first_poll_only_sets_the_baseline() {
    let mut p = Poller::new();
    assert_eq!(p.on_answer(100), None);
    assert_eq!(p.on_answer(160), Some(100));
    assert_eq!(p.last_date, Some(160));
}

#[test]
fn namespace_taken_by_other_user() {
    let alice = user(1, "alice");
    let db = db_with("grp", "pkg", v(1, 0, 0), &alice);
    let bob = user(2, "bob");
    let r = check_publish_permission(&db, &manifest("grp", "other", v(9, 9, 9)), &bob);
    assert_eq!(r, Err(Error::NamespaceIsTaken { group: "grp".to_owned(), owner: "alice".to_owned() }));
    assert_eq!(check_publish_permission(&db, &manifest("free", "pkg", v(1, 0, 0)), &bob), Ok(()));
}

#[test]
fn same_version_is_refused_other_version_allowed() {
    let alice = user(1, "alice");
    let db = db_with("grp", "pkg", v(1, 0, 0), &alice);
    let r = check_publish_permission(&db, &manifest("grp", "pkg", v(1, 0, 0)), &alice);
    assert_eq!(r, Err(Error::PackageExists { package: "grp/pkg".to_owned(), version: "1.0.0".to_owned() }));
    assert_eq!(check_publish_permission(&db, &manifest("grp", "pkg", v(1, 0, 1)), &alice), Ok(()));
}

#[test]
fn ledger_refuses_duplicates_and_unknown_owners() {
    let alice = user(1, "alice");
    let mut db = db_with("grp", "pkg", v(1, 0, 0), &alice);
    let again = Package { group: "grp".to_owned(), name: "pkg".to_owned(), version: v(1, 0, 0), description: None, user_id: 1 };
    assert_eq!(db.insert_package(again), Err(Error::DuplicatePackage));
    let stranger = Package { group: "g2".to_owned(), name: "p".to_owned(), version: v(1, 0, 0), description: None, user_id: 5 };
    assert_eq!(db.insert_package(stranger), Ok(()));
    assert!(!db.all_owners_known());
    let row = Row { id: 3, user_id: 1, body: "b".to_owned(), created_at: 0 };
    assert_eq!(db.insert_comment(row.clone()), Ok(()));
    assert_eq!(db.insert_comment(row), Err(Error::DuplicateComment));
    assert_eq!(db.query_package(Some("grp")).len(), 1);
    assert_eq!(db.query_package(Some("none")).len(), 0);
    assert_eq!(db.query_package(None).len(), 2);
}

#[test]
fn insert_user_replaces_name() {
    let mut db = Database::new();
    db.insert_user(user(1, "old"));
    db.insert_user(user(1, "new"));
    assert_eq!(db.query_user(1).unwrap().name, "new");
    assert!(db.query_user(2).is_none());
}

#[test]
fn checksum_round_trip_and_corruption() {
    let data = b"abc".to_vec();
    let sum = checksum(&data);
    assert_eq!(sum, "ba7816bf8f01cfea414140de5dae2223b00361a396177a9cb410ff61f20015ad");
    let ok = verify_download(sum.clone(), &data, "u".to_owned()).unwrap();
    assert_eq!(ok.checksum, checksum(&data));
    assert_eq!(ok.url, "u");
    let corrupted = b"abd".to_vec();
    let err = verify_download(sum.clone(), &corrupted, "u".to_owned());
    assert_eq!(err, Err(Error::DownloadVerification { local_cksum: sum, download_cksum: checksum(&corrupted) }));
}

#[test]
fn size_ceiling_boundary() {
    assert_eq!(check_size(100, 100), Ok(()));
    assert_eq!(check_size(0, 0), Ok(()));
    assert_eq!(check_size(101, 100), Err(Error::PackageOversize { size: 101, limit: 100 }));
    assert_eq!(check_size(u64::MAX, u64::MAX - 1), Err(Error::PackageOversize { size: u64::MAX, limit: u64::MAX - 1 }));
}

#[test]
fn commit_hash_is_lowercase_hex() {
    assert_eq!(commit_hash_text(&vec![0x00, 0xab, 0x10, 0xff]), "00ab10ff");
}

#[test]
fn upload_verification_builds_the_raw_url() {
    let m = manifest("grp", "pkg", v(1, 2, 3));
    let bytes = b"tarball".to_vec();
    let loc = verify_upload("org/store", &vec![0xde, 0xad], &m, &bytes, &bytes).unwrap();
    assert_eq!(loc.url, "https://github.com/org/store/blob/dead/grp/pkg/grp_pkg_1.2.3.tar.gz?raw=true");
    assert_eq!(loc.checksum, checksum(&bytes));
    let bad = verify_upload("org/store", &vec![0xde, 0xad], &m, &bytes, &b"other".to_vec());
    assert!(matches!(bad, Err(Error::DownloadVerification { .. })));
}

#[test]
fn index_keeps_both_versions_and_replaces_same() {
    let mut entries = Entries::empty();
    let mut m = manifest("grp", "pkg", v(1, 0, 0));
    m.dependencies.push(registry_dep("grp", "dep", ">=0.1"));
    entries.insert(&m, &location("a")).unwrap();
    entries.insert(&manifest("grp", "pkg", v(1, 0, 1)), &location("b")).unwrap();
    assert_eq!(entries.entries.len(), 2);
    assert_eq!(entries.entries[0].dependencies[0].req, ">=0.1");
    entries.insert(&manifest("grp", "pkg", v(1, 0, 0)), &location("c")).unwrap();
    assert_eq!(entries.entries.len(), 2);
    assert_eq!(entries.entries[0].version.to_string(), "1.0.1");
    assert_eq!(entries.entries[1].location.as_ref().unwrap().url, "c");
    assert!(entries.entries[1].dependencies.is_empty());
}

#[test]
fn index_refuses_non_registry_dependency() {
    let mut entries = Entries::empty();
    let mut m = manifest("grp", "pkg", v(1, 0, 0));
    m.dependencies.push(registry_dep("grp", "ok", "1"));
    m.dependencies.push(Dependency { name: name("other", "git"), req: DepReq::Other("Git(url)".to_owned()) });
    let r = entries.insert(&m, &location("a"));
    assert_eq!(r, Err(Error::NonIndexDependency { dependency: "other/git".to_owned(), resolution: "Git(url)".to_owned() }));
    assert!(entries.entries.is_empty());
}

#[test]
fn load_skips_undecodable_lines() {
    let good = IndexEntry { name: name("g", "p"), version: v(0, 1, 0), location: None, dependencies: vec![], yanked: false };
    let e = Entries::load(&vec![None, Some(good.clone()), None, Some(good)]);
    assert_eq!(e.entries.len(), 2);
}

#[test]
fn join_and_fill_readme() {
    assert_eq!(join_lines(&vec!["a".to_owned(), "b".to_owned(), "c".to_owned()]), "a\nb\nc");
    assert_eq!(join_lines(&vec![]), "");
    assert_eq!(fill_readme("# Index\n{#package-list#}\nend", "- x\n"), "# Index\n- x\n\nend");
    assert_eq!(fill_readme("no marker", "- x"), "no marker");
}

#[test]
fn end_to_end_two_versions() {
    let alice = user(1, "alice");
    let mut db = Database::new();
    let mut entries = Entries::empty();
    for m in [manifest("grp", "pkg", v(1, 0, 0)), manifest("grp", "pkg", v(1, 0, 1))] {
        assert_eq!(check_publish_permission(&db, &m, &alice), Ok(()));
        entries.insert(&m, &location("u")).unwrap();
        assert_eq!(commit_publish(&mut db, &m, &alice), Ok(()));
    }
    assert_eq!(db.query_package(None).len(), 2);
    assert_eq!(entries.entries.len(), 2);
    let listing = render_readme_package_list(&db);
    assert_eq!(listing, "- `grp/pkg 1.0.1` *no description* @[alice](https://github.com/alice)\n");
}

#[test]
fn listing_picks_newest_per_package() {
    let alice = user(1, "alice");
    let mut db = db_with("a", "x", v(2, 0, 0), &alice);
    let mut m = manifest("b", "y", v(0, 1, 0));
    m.description = Some("why".to_owned());
    commit_publish(&mut db, &m, &alice).unwrap();
    commit_publish(&mut db, &manifest("a", "x", v(10, 0, 0)), &alice).unwrap();
    commit_publish(&mut db, &manifest("a", "x", v(3, 0, 0)), &alice).unwrap();
    assert_eq!(
        render_readme_package_list(&db),
        "- `a/x 10.0.0` *no description* @[alice](https://github.com/alice)\n- `b/y 0.1.0` *why* @[alice](https://github.com/alice)\n"
    );
}

#[test]
fn version_order_and_text() {
    let mut a = v(1, 0, 0);
    a.pre = pre(&["alpha", "1"]);
    let mut b = v(1, 0, 0);
    b.pre = pre(&["alpha", "beta"]);
    let mut c = v(1, 0, 0);
    c.pre = pre(&["alpha", "10"]);
    assert!(a.older_than(&b));
    assert!(a.older_than(&c));
    assert!(!c.older_than(&a));
    assert!(c.older_than(&v(1, 0, 0)));
    assert!(v(1, 2, 9).older_than(&v(1, 10, 0)));
    assert!(!v(1, 0, 0).older_than(&v(1, 0, 0)));
    let mut d = c.clone();
    d.build = pre(&["build", "5"]);
    assert_eq!(d.to_string(), "1.0.0-alpha.10+build.5");
    assert!(d.same_as(&c));
    assert!(!a.same_as(&c));
}

#[test]
fn reports_render_exactly() {
    let c = comment(1, 1, "@bot /publish x", 0);
    assert_eq!(
        Report::CommandError.render(&c),
        "@bot /publish x\n\n- - - - - - - - - - -\n\n#### *Command Error*\n\n@alice *elba-bot was not able to understand your command.*\n"
    );
    let mut s = PublishState::new("x".to_owned());
    assert_eq!(
        Report::Publish(PublishState::new("x".to_owned())).render(&c),
        "@bot /publish x\n\n- - - - - - - - - - -\n\n#### *Publish Package*\n\n- 🎅 Blocking waiting for previous tasks\n\n\n@alice *Publish process will be started soon.*\n"
    );
    s.advance(PublishStep::Verify);
    s.fail("boom".to_owned());
    assert_eq!(
        Report::Publish(s).render(&c),
        "@bot /publish x\n\n- - - - - - - - - - -\n\n#### *Publish Package*\n\n- 🚢 Pulling repository\n- 🏭 Verifying package\n  - ❌ *boom*\n\n\n\n@alice *Publish failed due to the reason above.*\n"
    );
    let mut done = PublishState::new("x".to_owned());
    done.set_name(name("grp", "pkg"), v(1, 0, 1));
    done.advance(PublishStep::Done);
    let text = Report::Publish(done).render(&c);
    assert!(text.ends_with("- ✔️ Done\n\n\n@alice *Package  `grp/pkg|1.0.1` has been published. 🚀*\n"));
    assert!(text.contains("- 📜 Updating index\n"));
}

use elba_bot::pipeline::{Pipeline, PipelineAction, PipelineEvent};

#[test]
fn pipeline_runs_steps_in_order() {
    let alice = user(1, "alice");
    let mut db = Database::new();
    let mut p = Pipeline::new("https://x/y.git".to_owned(), Some("v1".to_owned()), alice.clone());
    assert_eq!(p.state.step, PublishStep::Block);
    assert!(matches!(p.start(), PipelineAction::Pull { ref url, ref refname }
        if url == "https://x/y.git" && refname.as_deref() == Some("v1")));
    assert!(matches!(p.on_event(&mut db, PipelineEvent::Pulled(Ok(()))), PipelineAction::Build));
    let built = PipelineEvent::Built(Ok(manifest("grp", "pkg", v(1, 0, 0))));
    assert!(matches!(p.on_event(&mut db, built), PipelineAction::Upload));
    assert_eq!(p.state.step, PublishStep::Upload);
    assert!(matches!(p.on_event(&mut db, PipelineEvent::Uploaded(Ok(location("u")))), PipelineAction::UpdateIndex));
    assert_eq!(db.query_package(None).len(), 0);
    match p.on_event(&mut db, PipelineEvent::Indexed(Ok(()))) {
        PipelineAction::UpdateReadme { listing } => {
            assert_eq!(listing, "- `grp/pkg 1.0.0` *no description* @[alice](https://github.com/alice)\n")
        }
        other => panic!("unexpected action {:?}", other),
    }
    assert_eq!(db.query_package(None).len(), 1);
    assert!(matches!(p.on_event(&mut db, PipelineEvent::ReadmeUpdated(Ok(()))), PipelineAction::Finished));
    assert_eq!(p.state.step, PublishStep::Done);
    assert!(p.state.error.is_none());
}

#[test]
fn pipeline_refuses_foreign_namespace_before_upload() {
    let alice = user(1, "alice");
    let mut db = db_with("grp", "pkg", v(1, 0, 0), &alice);
    let mut p = Pipeline::new("src".to_owned(), None, user(2, "bob"));
    p.start();
    p.on_event(&mut db, PipelineEvent::Pulled(Ok(())));
    let built = PipelineEvent::Built(Ok(manifest("grp", "new", v(0, 1, 0))));
    assert!(matches!(p.on_event(&mut db, built), PipelineAction::Finished));
    assert_eq!(p.state.step, PublishStep::Verify);
    assert_eq!(p.state.error.as_deref(), Some("Namespace `grp` has been taken by @alice"));
    assert_eq!(db.query_package(None).len(), 1);
}

#[test]
fn pipeline_stops_on_outside_failure() {
    let mut db = Database::new();
    let mut p = Pipeline::new("src".to_owned(), Some("nope".to_owned()), user(1, "alice"));
    p.start();
    let r = p.on_event(&mut db, PipelineEvent::Pulled(Err("ref `nope` not found".to_owned())));
    assert!(matches!(r, PipelineAction::Finished));
    assert_eq!(p.state.step, PublishStep::Pull);
    assert_eq!(p.state.error.as_deref(), Some("ref `nope` not found"));
}

#[test]
fn pipeline_ignores_answer_to_another_step() {
    let mut db = Database::new();
    let mut p = Pipeline::new("src".to_owned(), None, user(1, "alice"));
    p.start();
    assert!(matches!(p.on_event(&mut db, PipelineEvent::Indexed(Ok(()))), PipelineAction::Finished));
    assert_eq!(p.state.step, PublishStep::Pull);
    assert!(p.state.error.is_none());
}

#[test]
fn error_messages() {
    assert_eq!(
        Error::PackageOversize { size: 2048, limit: 1024 }.to_string(),
        "Package tarball is too big (2048 bytes) while the maximum size is 1024"
    );
    assert_eq!(
        Error::PackageExists { package: "g/p".to_owned(), version: "1.0.0".to_owned() }.to_string(),
        "Package `g/p 1.0.0` has been published"
    );
    assert_eq!(
        Error::NonIndexDependency { dependency: "a/b".to_owned(), resolution: "Git".to_owned() }.to_string(),
        "Package contains non-index dependency `a/b`(Git)"
    );
    assert_eq!(Error::RepoIsBare.to_string(), "Repository is bare");
}

#[test]
fn listing_is_sorted_by_group_then_name() {
    let alice = user(1, "alice");
    let mut db = db_with("zz", "b", v(1, 0, 0), &alice);
    commit_publish(&mut db, &manifest("aa", "y", v(0, 2, 0)), &alice).unwrap();
    commit_publish(&mut db, &manifest("aa", "x", v(0, 1, 0)), &alice).unwrap();
    let mut rc = v(0, 2, 0);
    rc.pre = pre(&["rc", "1"]);
    commit_publish(&mut db, &manifest("aa", "y", rc), &alice).unwrap();
    assert!(db.all_owners_known());
    assert_eq!(
        render_readme_package_list(&db),
        "- `aa/x 0.1.0` *no description* @[alice](https://github.com/alice)\n- `aa/y 0.2.0` *no description* @[alice](https://github.com/alice)\n- `zz/b 1.0.0` *no description* @[alice](https://github.com/alice)\n"
    );
}

#[test]
fn pipeline_stops_on_upload_failure_without_touching_ledger() {
    let mut db = Database::new();
    let mut p = Pipeline::new("src".to_owned(), None, user(1, "alice"));
    p.start();
    p.on_event(&mut db, PipelineEvent::Pulled(Ok(())));
    p.on_event(&mut db, PipelineEvent::Built(Ok(manifest("grp", "pkg", v(1, 0, 0)))));
    let r = p.on_event(&mut db, PipelineEvent::Uploaded(Err("too big".to_owned())));
    assert!(matches!(r, PipelineAction::Finished));
    assert_eq!(p.state.step, PublishStep::Upload);
    assert_eq!(p.state.error.as_deref(), Some("too big"));
    assert_eq!(db.query_package(None).len(), 0);
}

#[test]
fn pipeline_stops_on_index_failure_without_touching_ledger() {
    let mut db = Database::new();
    let mut p = Pipeline::new("src".to_owned(), None, user(1, "alice"));
    p.start();
    p.on_event(&mut db, PipelineEvent::Pulled(Ok(())));
    p.on_event(&mut db, PipelineEvent::Built(Ok(manifest("grp", "pkg", v(1, 0, 0)))));
    p.on_event(&mut db, PipelineEvent::Uploaded(Ok(location("u"))));
    let r = p.on_event(&mut db, PipelineEvent::Indexed(Err("push rejected".to_owned())));
    assert!(matches!(r, PipelineAction::Finished));
    assert_eq!(p.state.step, PublishStep::UpdateIndex);
    assert_eq!(p.state.error.as_deref(), Some("push rejected"));
    assert_eq!(db.query_package(None).len(), 0);
    assert!(db.query_user(1).is_none());
}

#[test]
fn pipeline_refuses_republished_version() {
    let alice = user(1, "alice");
    let mut db = db_with("grp", "pkg", v(1, 0, 0), &alice);
    let mut p = Pipeline::new("src".to_owned(), None, alice.clone());
    p.start();
    p.on_event(&mut db, PipelineEvent::Pulled(Ok(())));
    let r = p.on_event(&mut db, PipelineEvent::Built(Ok(manifest("grp", "pkg", v(1, 0, 0)))));
    assert!(matches!(r, PipelineAction::Finished));
    assert_eq!(p.state.error.as_deref(), Some("Package `grp/pkg 1.0.0` has been published"));
}
