use vstd::prelude::*;

use crate::database::{has_coordinate, is_coordinate, Database, Package, PackageModel, User};
use crate::error::Error;
use crate::manifest::Manifest;
use crate::text::{clone_opt, same_text};
use crate::version::{same_version, version_text, VersionModel};

verus! {

/// The position of the first record of group `g`, from `k` on, whose owner
/// is not `u`; the length of `ps` where there is none.
pub open spec fn first_foreign(ps: Seq<PackageModel>, g: Seq<char>, u: i64, k: int) -> int
    decreases ps.len() - k,
{
    if k < 0 || k >= ps.len() {
        ps.len() as int
    } else if ps[k].group == g && ps[k].user_id != u {
        k
    } else {
        first_foreign(ps, g, u, k + 1)
    }
}

} // verus!

verus! {

/// Whether `user` may publish `manifest`: the namespace must be free or
/// theirs, and the exact coordinate must not be taken.
pub fn check_publish_permission(db: &Database, manifest: &Manifest, user: &User) -> (r: Result<
    (),
    Error,
>)
    requires
        db.wf(),
        db.owners_known(),
    ensures
        ({
            let ps = db.records();
            let f = first_foreign(ps, manifest.name.group@, user.id, 0);
            if f < ps.len() {
                r matches Err(Error::NamespaceIsTaken { group, owner }) && group@
                    == manifest.name.group@ && owner@ == db.users@[ps[f].user_id]@
            } else if has_coordinate(
                ps,
                manifest.name.group@,
                manifest.name.name@,
                manifest.version@,
            ) {
                r matches Err(Error::PackageExists { package, version }) && package@
                    == manifest.name.text@ && version@ == version_text(manifest.version@)
            } else {
                r is Ok
            }
        }),
{
    let ghost ps = db.records();
    let group = manifest.name.group.as_str();
    let mut k: usize = 0;
    while k < db.packages.len()
        invariant
            db.wf(),
            db.owners_known(),
            group@ == manifest.name.group@,
            ps == db.records(),
            k <= ps.len(),
            first_foreign(ps, group@, user.id, k as int) == first_foreign(ps, group@, user.id, 0),
        decreases ps.len() - k,
    {
        let p = &db.packages[k];
        if same_text(p.group.as_str(), group) && p.user_id != user.id {
            assert(db.users@.contains_key(db.records()[k as int].user_id));
            let owner = match db.query_user(p.user_id) {
                Some(u) => u.name,
                None => String::new(),
            };
            assert(ps[k as int].group == group@ && ps[k as int].user_id != user.id);
            assert(first_foreign(ps, group@, user.id, k as int) == k);
            let g = p.group.clone();
            return Err(Error::NamespaceIsTaken { group: g, owner });
        }
        k = k + 1;
    }
    if db.holds_coordinate(group, manifest.name.name.as_str(), &manifest.version) {
        return Err(
            Error::PackageExists {
                package: manifest.name.text.clone(),
                version: manifest.version.to_string(),
            },
        );
    }
    Ok(())
}

/// The ledger record that publishing `manifest` as `user` makes.
pub open spec fn record_of(manifest: Manifest, user_id: i64) -> PackageModel {
    PackageModel {
        group: manifest.name.group@,
        name: manifest.name.name@,
        version: manifest.version@,
        description: match manifest.description {
            Some(d) => Some(d@),
            None => None,
        },
        user_id,
    }
}

/// Writes the user and the new package record into the ledger.
pub fn commit_publish(db: &mut Database, manifest: &Manifest, user: &User) -> (r: Result<(), Error>)
    requires
        old(db).wf(),
    ensures
        final(db).wf(),
        old(db).owners_known() ==> final(db).owners_known(),
        final(db).users@ == old(db).users@.insert(user.id, user.name),
        final(db).comments@ == old(db).comments@,
        if has_coordinate(
            old(db).records(),
            manifest.name.group@,
            manifest.name.name@,
            manifest.version@,
        ) {
            r == Err::<(), Error>(Error::DuplicatePackage) && final(db).records() == old(
                db,
            ).records()
        } else {
            r is Ok && final(db).records() == old(db).records().push(record_of(*manifest, user.id))
        },
{
    db.insert_user(User { id: user.id, name: user.name.clone() });
    let package = Package {
        group: manifest.name.group.clone(),
        name: manifest.name.name.clone(),
        version: manifest.version.clone(),
        description: clone_opt(&manifest.description),
        user_id: user.id,
    };
    assert(package@ == record_of(*manifest, user.id));
    db.insert_package(package)
}

} // verus!

verus! {

proof fn lemma_first_foreign_at_most(ps: Seq<PackageModel>, g: Seq<char>, u: i64, j: int, k: int)
    requires
        0 <= j <= k < ps.len(),
        ps[k].group == g,
        ps[k].user_id != u,
    ensures
        first_foreign(ps, g, u, j) <= k,
    decreases k - j,
{
    if j < k && !(ps[j].group == g && ps[j].user_id != u) {
        lemma_first_foreign_at_most(ps, g, u, j + 1, k);
    }
}

proof fn lemma_first_foreign_none(ps: Seq<PackageModel>, g: Seq<char>, u: i64, j: int)
    requires
        0 <= j <= ps.len(),
        forall|i: int| 0 <= i < ps.len() && (#[trigger] ps[i]).group == g ==> ps[i].user_id == u,
    ensures
        first_foreign(ps, g, u, j) == ps.len(),
    decreases ps.len() - j,
{
    if j < ps.len() {
        lemma_first_foreign_none(ps, g, u, j + 1);
    }
}

/// Once a record of group `ps[k].group` is owned by someone other than
/// `user_id`, every publish by `user_id` into that group is refused with
/// `NamespaceIsTaken` (the first case of `check_publish_permission`),
/// whatever its name and version.
pub proof fn lemma_namespace_taken(ps: Seq<PackageModel>, k: int, user_id: i64)
    requires
        0 <= k < ps.len(),
        ps[k].user_id != user_id,
    ensures
        first_foreign(ps, ps[k].group, user_id, 0) < ps.len(),
{
    lemma_first_foreign_at_most(ps, ps[k].group, user_id, 0, k);
}

/// Publishing a recorded `(group, name, version)` again, by the owner of
/// the group, is refused with `PackageExists` (the second case of
/// `check_publish_permission`).
pub proof fn lemma_duplicate_refused(ps: Seq<PackageModel>, k: int, user_id: i64)
    requires
        0 <= k < ps.len(),
        forall|i: int|
            0 <= i < ps.len() && (#[trigger] ps[i]).group == ps[k].group ==> ps[i].user_id
                == user_id,
    ensures
        first_foreign(ps, ps[k].group, user_id, 0) == ps.len(),
        has_coordinate(ps, ps[k].group, ps[k].name, ps[k].version),
{
    lemma_first_foreign_none(ps, ps[k].group, user_id, 0);
    assert(is_coordinate(ps[k], ps[k].group, ps[k].name, ps[k].version));
}

/// A new version of a package, by the owner of its group, is allowed (the
/// last case of `check_publish_permission`).
pub proof fn lemma_new_version_allowed(
    ps: Seq<PackageModel>,
    g: Seq<char>,
    n: Seq<char>,
    v: VersionModel,
    user_id: i64,
)
    requires
        forall|i: int| 0 <= i < ps.len() && (#[trigger] ps[i]).group == g ==> ps[i].user_id == user_id,
        forall|i: int|
            0 <= i < ps.len() && (#[trigger] ps[i]).group == g && ps[i].name == n ==> !same_version(
                ps[i].version,
                v,
            ),
    ensures
        first_foreign(ps, g, user_id, 0) == ps.len(),
        !has_coordinate(ps, g, n, v),
{
    lemma_first_foreign_none(ps, g, user_id, 0);
}

} // verus!

verus! {

/// Every group's records share one owner.
pub open spec fn single_owner_groups(ps: Seq<PackageModel>) -> bool {
    forall|i: int, j: int|
        0 <= i < ps.len() && 0 <= j < ps.len() && (#[trigger] ps[i]).group == (#[trigger] ps[j]).group
            ==> ps[i].user_id == ps[j].user_id
}

proof fn lemma_no_foreign_means_owned(ps: Seq<PackageModel>, g: Seq<char>, u: i64, k: int)
    requires
        0 <= k <= ps.len(),
        first_foreign(ps, g, u, k) == ps.len(),
    ensures
        forall|i: int| k <= i < ps.len() && (#[trigger] ps[i]).group == g ==> ps[i].user_id == u,
    decreases ps.len() - k,
{
    if k < ps.len() {
        lemma_no_foreign_means_owned(ps, g, u, k + 1);
    }
}

/// Recording a publish that the permission check let through keeps every
/// group owned by a single user.
pub proof fn lemma_publish_keeps_single_owner(ps: Seq<PackageModel>, p: PackageModel)
    requires
        single_owner_groups(ps),
        first_foreign(ps, p.group, p.user_id, 0) == ps.len(),
    ensures
        single_owner_groups(ps.push(p)),
{
    lemma_no_foreign_means_owned(ps, p.group, p.user_id, 0);
    let qs = ps.push(p);
    assert forall|i: int, j: int|
        0 <= i < qs.len() && 0 <= j < qs.len() && (#[trigger] qs[i]).group == (
        #[trigger] qs[j]).group implies qs[i].user_id == qs[j].user_id by {
        if i < ps.len() && j < ps.len() {
            assert(ps[i] == qs[i] && ps[j] == qs[j]);
        } else if i < ps.len() {
            assert(ps[i] == qs[i]);
        } else if j < ps.len() {
            assert(ps[j] == qs[j]);
        }
    }
}

/// The records of group `g`, in order.
pub open spec fn group_records(ps: Seq<PackageModel>, g: Seq<char>) -> Seq<PackageModel> {
    ps.filter(|p: PackageModel| p.group == g)
}

proof fn lemma_none_in_group(ps: Seq<PackageModel>, g: Seq<char>)
    requires
        forall|i: int| 0 <= i < ps.len() ==> (#[trigger] ps[i]).group != g,
    ensures
        group_records(ps, g) =~= Seq::<PackageModel>::empty(),
    decreases ps.len(),
{
    reveal(Seq::filter);
    if ps.len() > 0 {
        assert(ps.drop_last().len() == ps.len() - 1);
        assert forall|i: int| 0 <= i < ps.drop_last().len() implies (
        #[trigger] ps.drop_last()[i]).group != g by {
            assert(ps.drop_last()[i] == ps[i]);
        }
        lemma_none_in_group(ps.drop_last(), g);
    }
}

/// A user who publishes a package into a group with no records, then
/// publishes another version of it, is allowed both times (both pass
/// `check_publish_permission` and `commit_publish` records both), and the
/// group then holds exactly the two records, in that order.
pub proof fn lemma_two_versions(ps: Seq<PackageModel>, m1: Manifest, m2: Manifest, user_id: i64)
    requires
        forall|i: int| 0 <= i < ps.len() ==> (#[trigger] ps[i]).group != m1.name.group@,
        m2.name.group@ == m1.name.group@,
        m2.name.name@ == m1.name.name@,
        !same_version(m1.version@, m2.version@),
    ensures
        first_foreign(ps, m1.name.group@, user_id, 0) == ps.len(),
        !has_coordinate(ps, m1.name.group@, m1.name.name@, m1.version@),
        ({
            let ps1 = ps.push(record_of(m1, user_id));
            &&& first_foreign(ps1, m2.name.group@, user_id, 0) == ps1.len()
            &&& !has_coordinate(ps1, m2.name.group@, m2.name.name@, m2.version@)
            &&& group_records(ps1.push(record_of(m2, user_id)), m1.name.group@) == seq![
                record_of(m1, user_id),
                record_of(m2, user_id),
            ]
        }),
{
    let g = m1.name.group@;
    let r1 = record_of(m1, user_id);
    let r2 = record_of(m2, user_id);
    let ps1 = ps.push(r1);
    let ps2 = ps1.push(r2);
    lemma_first_foreign_none(ps, g, user_id, 0);
    assert forall|i: int| 0 <= i < ps1.len() && (#[trigger] ps1[i]).group == g implies ps1[i].user_id
        == user_id by {
        if i < ps.len() {
            assert(ps1[i] == ps[i]);
        }
    }
    lemma_first_foreign_none(ps1, g, user_id, 0);
    assert forall|i: int| 0 <= i < ps1.len() implies !is_coordinate(
        #[trigger] ps1[i],
        g,
        m2.name.name@,
        m2.version@,
    ) by {
        if i < ps.len() {
            assert(ps1[i] == ps[i]);
        }
    }
    lemma_none_in_group(ps, g);
    reveal(Seq::filter);
    assert(ps2.drop_last() =~= ps1);
    assert(ps1.drop_last() =~= ps);
    assert(group_records(ps1, g) == group_records(ps, g).push(r1));
    assert(group_records(ps2, g) == group_records(ps1, g).push(r2));
    assert(group_records(ps2, g) =~= seq![r1, r2]);
}

} // verus!
