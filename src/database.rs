use vstd::prelude::*;
use std::collections::HashMap;

use crate::error::Error;
use crate::text::{clone_opt, same_text};
use crate::version::{same_version, Version, VersionModel};

verus! {

broadcast use vstd::std_specs::hash::group_hash_axioms;

/// A person as the comment source names them.
#[derive(Debug)]
pub struct User {
    pub id: i64,
    pub name: String,
}

/// A comment that has been taken in; `created_at` is in seconds since the
/// Unix epoch.
#[derive(Debug)]
pub struct Comment {
    pub id: i64,
    pub user_id: i64,
    pub body: String,
    pub created_at: i64,
}

/// A published package: normalized group and name, the version, and its
/// owner.
#[derive(Debug)]
pub struct Package {
    pub group: String,
    pub name: String,
    pub version: Version,
    pub description: Option<String>,
    pub user_id: i64,
}

impl Clone for User {
    fn clone(&self) -> (r: Self)
        ensures
            r == *self,
    {
        User { id: self.id, name: self.name.clone() }
    }
}

impl Clone for Comment {
    fn clone(&self) -> (r: Self)
        ensures
            r == *self,
    {
        Comment {
            id: self.id,
            user_id: self.user_id,
            body: self.body.clone(),
            created_at: self.created_at,
        }
    }
}

/// A package record as a mathematical value.
pub struct PackageModel {
    pub group: Seq<char>,
    pub name: Seq<char>,
    pub version: VersionModel,
    pub description: Option<Seq<char>>,
    pub user_id: i64,
}

impl View for Package {
    type V = PackageModel;

    open spec fn view(&self) -> PackageModel {
        PackageModel {
            group: self.group@,
            name: self.name@,
            version: self.version@,
            description: match self.description {
                Some(d) => Some(d@),
                None => None,
            },
            user_id: self.user_id,
        }
    }
}

impl Clone for Package {
    fn clone(&self) -> (r: Self)
        ensures
            r@ == self@,
    {
        Package {
            group: self.group.clone(),
            name: self.name.clone(),
            version: self.version.clone(),
            description: clone_opt(&self.description),
            user_id: self.user_id,
        }
    }
}

/// Whether record `p` has coordinate `(g, n, v)`.
pub open spec fn is_coordinate(p: PackageModel, g: Seq<char>, n: Seq<char>, v: VersionModel) -> bool {
    p.group == g && p.name == n && same_version(p.version, v)
}

/// Whether one of `ps` has coordinate `(g, n, v)`.
pub open spec fn has_coordinate(
    ps: Seq<PackageModel>,
    g: Seq<char>,
    n: Seq<char>,
    v: VersionModel,
) -> bool {
    exists|i: int| 0 <= i < ps.len() && is_coordinate(#[trigger] ps[i], g, n, v)
}

/// The models of a sequence of records.
pub open spec fn views(s: Seq<Package>) -> Seq<PackageModel> {
    s.map_values(|p: Package| p@)
}

/// Whether two records name the same `(group, name, version)`.
pub open spec fn same_coordinate(a: PackageModel, b: PackageModel) -> bool {
    a.group == b.group && a.name == b.name && same_version(a.version, b.version)
}

/// The ledger: users by id, processed comments by id, and the published
/// packages in the order they were recorded.
pub struct Database {
    pub users: HashMap<i64, String>,
    pub comments: HashMap<i64, Comment>,
    pub packages: Vec<Package>,
}

impl Database {
    /// The package records in ledger order.
    pub open spec fn records(&self) -> Seq<PackageModel> {
        views(self.packages@)
    }

    /// No two package records share a coordinate.
    pub open spec fn wf(&self) -> bool {
        forall|i: int, j: int|
            0 <= i < j < self.records().len() ==> !same_coordinate(
                #[trigger] self.records()[i],
                #[trigger] self.records()[j],
            )
    }

    /// Every record's owner is a known user.
    pub open spec fn owners_known(&self) -> bool {
        forall|i: int|
            0 <= i < self.records().len() ==> self.users@.contains_key(
                #[trigger] self.records()[i].user_id,
            )
    }

    /// Whether every record's owner is a known user.
    pub fn all_owners_known(&self) -> (r: bool)
        ensures
            r == self.owners_known(),
    {
        let mut k: usize = 0;
        while k < self.packages.len()
            invariant
                k <= self.packages@.len(),
                forall|i: int| 0 <= i < k ==> self.users@.contains_key(#[trigger] self.records()[i].user_id),
            decreases self.packages@.len() - k,
        {
            if !self.users.contains_key(&self.packages[k].user_id) {
                assert(!self.users@.contains_key(self.records()[k as int].user_id));
                return false;
            }
            k = k + 1;
        }
        true
    }

    /// The records of group `g`, in ledger order.
    pub open spec fn in_group(&self, g: Seq<char>) -> Seq<PackageModel> {
        self.records().filter(|p: PackageModel| p.group == g)
    }

    /// An empty ledger.
    pub fn new() -> (r: Database)
        ensures
            r.wf(),
            r.owners_known(),
            r.users@ == Map::<i64, String>::empty(),
            r.comments@ == Map::<i64, Comment>::empty(),
            r.records() == Seq::<PackageModel>::empty(),
    {
        Database { users: HashMap::new(), comments: HashMap::new(), packages: Vec::new() }
    }

    /// The user with id `user_id`, if known.
    pub fn query_user(&self, user_id: i64) -> (r: Option<User>)
        ensures
            r is Some <==> self.users@.contains_key(user_id),
            r is Some ==> r->0.id == user_id && r->0.name@ == self.users@[user_id]@,
    {
        match self.users.get(&user_id) {
            Some(name) => Some(User { id: user_id, name: name.clone() }),
            None => None,
        }
    }

    /// Records `user`, replacing the name held for its id.
    pub fn insert_user(&mut self, user: User)
        requires
            old(self).wf(),
        ensures
            final(self).wf(),
            old(self).owners_known() ==> final(self).owners_known(),
            final(self).users@ == old(self).users@.insert(user.id, user.name),
            final(self).comments@ == old(self).comments@,
            final(self).records() == old(self).records(),
    {
        self.users.insert(user.id, user.name);
        assert(self.records() == old(self).records());
        proof {
            if old(self).owners_known() {
                assert forall|i: int| 0 <= i < self.records().len() implies self.users@.contains_key(
                    #[trigger] self.records()[i].user_id,
                ) by {
                    assert(old(self).users@.contains_key(old(self).records()[i].user_id));
                }
            }
        }
    }

    /// The package records, all of them or those of one group, in ledger
    /// order.
    pub fn query_package(&self, group: Option<&str>) -> (r: Vec<Package>)
        ensures
            views(r@) == match group {
                Some(g) => self.in_group(g@),
                None => self.records(),
            },
    {
        let mut r: Vec<Package> = Vec::new();
        let mut k: usize = 0;
        while k < self.packages.len()
            invariant
                k <= self.packages@.len(),
                views(r@) == match group {
                    Some(g) => views(self.packages@.subrange(0, k as int)).filter(
                        |p: PackageModel| p.group == g@,
                    ),
                    None => views(self.packages@.subrange(0, k as int)),
                },
            decreases self.packages@.len() - k,
        {
            let p = &self.packages[k];
            let keep = match group {
                Some(g) => same_text(p.group.as_str(), g),
                None => true,
            };
            let ghost before = r@;
            proof {
                let s = views(self.packages@.subrange(0, k as int));
                assert(views(self.packages@.subrange(0, k + 1)) =~= s.push(p@));
                if let Some(g) = group {
                    assert(s.push(p@).drop_last() =~= s);
                    reveal(Seq::filter);
                }
            }
            if keep {
                let c = p.clone();
                r.push(c);
                assert(views(r@) =~= views(before).push(p@));
            }
            k = k + 1;
        }
        assert(self.packages@.subrange(0, self.packages@.len() as int) =~= self.packages@);
        r
    }

    /// Whether a record with coordinate `(group, name, version)` is held.
    pub fn holds_coordinate(&self, group: &str, name: &str, version: &Version) -> (r: bool)
        ensures
            r == has_coordinate(self.records(), group@, name@, version@),
    {
        let mut k: usize = 0;
        while k < self.packages.len()
            invariant
                k <= self.packages@.len(),
                forall|i: int|
                    0 <= i < k ==> !is_coordinate(
                        #[trigger] self.records()[i],
                        group@,
                        name@,
                        version@,
                    ),
            decreases self.packages@.len() - k,
        {
            let p = &self.packages[k];
            if same_text(p.group.as_str(), group) && same_text(p.name.as_str(), name)
                && p.version.same_as(version) {
                assert(is_coordinate(self.records()[k as int], group@, name@, version@));
                return true;
            }
            k = k + 1;
        }
        false
    }

    /// Records a package, which must not repeat a recorded coordinate.
    pub fn insert_package(&mut self, package: Package) -> (r: Result<(), Error>)
        requires
            old(self).wf(),
        ensures
            final(self).wf(),
            old(self).owners_known() && old(self).users@.contains_key(package.user_id) ==> final(self).owners_known(),
            final(self).users@ == old(self).users@,
            final(self).comments@ == old(self).comments@,
            if has_coordinate(old(self).records(), package.group@, package.name@, package.version@) {
                r == Err::<(), Error>(Error::DuplicatePackage) && final(self).records() == old(self).records()
            } else {
                r is Ok && final(self).records() == old(self).records().push(package@)
            },
    {
        if self.holds_coordinate(package.group.as_str(), package.name.as_str(), &package.version) {
            return Err(Error::DuplicatePackage);
        }
        self.packages.push(package);
        assert(self.records() =~= old(self).records().push(package@));
        assert forall|i: int, j: int| 0 <= i < j < self.records().len() implies !same_coordinate(
            #[trigger] self.records()[i],
            #[trigger] self.records()[j],
        ) by {
            if j == self.records().len() - 1 {
                assert(!same_coordinate(old(self).records()[i], package@));
            } else {
                assert(!same_coordinate(old(self).records()[i], old(self).records()[j]));
            }
        }
        proof {
            if old(self).owners_known() && old(self).users@.contains_key(package.user_id) {
                assert forall|i: int| 0 <= i < self.records().len() implies self.users@.contains_key(
                    #[trigger] self.records()[i].user_id,
                ) by {
                    if i < old(self).records().len() {
                        assert(old(self).users@.contains_key(old(self).records()[i].user_id));
                    }
                }
            }
        }
        Ok(())
    }

    /// The comment with id `comment_id`, if it has been taken in.
    pub fn query_comment(&self, comment_id: i64) -> (r: Option<Comment>)
        ensures
            r is Some <==> self.comments@.contains_key(comment_id),
            r is Some ==> r->0 == self.comments@[comment_id],
    {
        match self.comments.get(&comment_id) {
            Some(c) => Some(c.clone()),
            None => None,
        }
    }

    /// Takes in a comment whose id has not been seen.
    pub fn insert_comment(&mut self, comment: Comment) -> (r: Result<(), Error>)
        requires
            old(self).wf(),
        ensures
            final(self).wf(),
            final(self).users@ == old(self).users@,
            final(self).records() == old(self).records(),
            old(self).comments@.contains_key(comment.id) ==> r == Err::<(), Error>(
                Error::DuplicateComment,
            ) && final(self).comments@ == old(self).comments@,
            !old(self).comments@.contains_key(comment.id) ==> r is Ok && final(self).comments@
                == old(self).comments@.insert(comment.id, comment),
    {
        if self.comments.contains_key(&comment.id) {
            return Err(Error::DuplicateComment);
        }
        let id = comment.id;
        self.comments.insert(id, comment);
        assert(self.records() == old(self).records());
        Ok(())
    }
}

} // verus!
