use vstd::prelude::*;

use crate::error::Error;
use crate::text::{push_str, same_text, string_from_chars};
use crate::manifest::{DepReq, Dependency, Manifest, PackageName};
use crate::store::Location;
use crate::version::{same_version, Version, VersionModel};

verus! {

/// A dependency edge inside the registry: a package and a version
/// constraint on it.
#[derive(Debug)]
pub struct IndexDep {
    pub name: PackageName,
    pub req: String,
}

impl Clone for IndexDep {
    fn clone(&self) -> (r: Self)
        ensures
            r == *self,
    {
        IndexDep { name: self.name.clone(), req: self.req.clone() }
    }
}

/// One version of a package as the catalog lists it.
#[derive(Debug)]
pub struct IndexEntry {
    pub name: PackageName,
    pub version: Version,
    pub location: Option<Location>,
    pub dependencies: Vec<IndexDep>,
    pub yanked: bool,
}

pub struct EntryModel {
    pub name: PackageName,
    pub version: VersionModel,
    pub location: Option<Location>,
    pub dependencies: Seq<IndexDep>,
    pub yanked: bool,
}

impl View for IndexEntry {
    type V = EntryModel;

    open spec fn view(&self) -> EntryModel {
        EntryModel {
            name: self.name,
            version: self.version@,
            location: self.location,
            dependencies: self.dependencies@,
            yanked: self.yanked,
        }
    }
}

fn clone_deps(v: &Vec<IndexDep>) -> (r: Vec<IndexDep>)
    ensures
        r@ == v@,
{
    let mut r: Vec<IndexDep> = Vec::new();
    let mut k: usize = 0;
    while k < v.len()
        invariant
            k <= v@.len(),
            r@ == v@.subrange(0, k as int),
        decreases v@.len() - k,
    {
        r.push(v[k].clone());
        k = k + 1;
    }
    assert(v@.subrange(0, v@.len() as int) =~= v@);
    r
}

impl Clone for IndexEntry {
    fn clone(&self) -> (r: Self)
        ensures
            r@ == self@,
    {
        let location = match &self.location {
            Some(l) => Some(l.clone()),
            None => None,
        };
        IndexEntry {
            name: self.name.clone(),
            version: self.version.clone(),
            location,
            dependencies: clone_deps(&self.dependencies),
            yanked: self.yanked,
        }
    }
}

/// Whether two entries are the same version of the same package (names
/// compare by their normalized form).
pub open spec fn same_entry(a: EntryModel, b: EntryModel) -> bool {
    a.name.group@ == b.name.group@ && a.name.name@ == b.name.name@ && same_version(
        a.version,
        b.version,
    )
}

/// The position of the first dependency, from `k` on, that is not resolved
/// from the registry; the length where there is none.
pub open spec fn first_outside(deps: Seq<Dependency>, k: int) -> int
    decreases deps.len() - k,
{
    if k < 0 || k >= deps.len() {
        deps.len() as int
    } else if deps[k].req is Other {
        k
    } else {
        first_outside(deps, k + 1)
    }
}

/// The catalog edge of a registry dependency.
pub open spec fn edge_of(d: Dependency) -> IndexDep {
    IndexDep {
        name: d.name,
        req: match d.req {
            DepReq::Registry(c) => c,
            DepReq::Other(c) => c,
        },
    }
}

/// The entry that publishing `m` at `location` adds.
pub open spec fn entry_of(m: Manifest, location: Location) -> EntryModel {
    EntryModel {
        name: m.name,
        version: m.version@,
        location: Some(location),
        dependencies: m.dependencies@.map_values(|d: Dependency| edge_of(d)),
        yanked: false,
    }
}

pub open spec fn entry_views(s: Seq<IndexEntry>) -> Seq<EntryModel> {
    s.map_values(|e: IndexEntry| e@)
}

/// The entries of one package's catalog file, in file order.
pub struct Entries {
    pub entries: Vec<IndexEntry>,
}

impl Entries {
    pub open spec fn models(&self) -> Seq<EntryModel> {
        entry_views(self.entries@)
    }

    /// No entries.
    pub fn empty() -> (r: Entries)
        ensures
            r.models() == Seq::<EntryModel>::empty(),
    {
        Entries { entries: Vec::new() }
    }

    /// The entries of a file whose lines were decoded one by one; lines that
    /// could not be decoded are skipped.
    pub fn load(lines: &Vec<Option<IndexEntry>>) -> (r: Entries)
        ensures
            r.models() == decoded(lines@),
    {
        let mut r: Vec<IndexEntry> = Vec::new();
        let mut k: usize = 0;
        while k < lines.len()
            invariant
                k <= lines@.len(),
                entry_views(r@) == decoded(lines@.subrange(0, k as int)),
            decreases lines@.len() - k,
        {
            let ghost before = r@;
            assert(lines@.subrange(0, k + 1).drop_last() =~= lines@.subrange(0, k as int));
            if let Some(e) = &lines[k] {
                r.push(e.clone());
                assert(entry_views(r@) =~= entry_views(before).push(e@));
            }
            k = k + 1;
        }
        assert(lines@.subrange(0, lines@.len() as int) =~= lines@);
        Entries { entries: r }
    }

    /// Adds the entry of `manifest` stored at `location`, replacing any entry
    /// of the same package version; every dependency must come from the
    /// registry.
    pub fn insert(&mut self, manifest: &Manifest, location: &Location) -> (r: Result<(), Error>)
        ensures
            ({
                let deps = manifest.dependencies@;
                let f = first_outside(deps, 0);
                if f < deps.len() {
                    &&& (r matches Err(Error::NonIndexDependency { dependency, resolution })
                        && dependency@ == deps[f].name.text@ && resolution == deps[f].req->Other_0)
                    &&& final(self).models() == old(self).models()
                } else {
                    let new = entry_of(*manifest, *location);
                    &&& r is Ok
                    &&& final(self).models() == old(self).models().filter(
                        |e: EntryModel| !same_entry(e, new),
                    ).push(new)
                }
            }),
    {
        let deps = &manifest.dependencies;
        let mut edges: Vec<IndexDep> = Vec::new();
        let mut k: usize = 0;
        while k < deps.len()
            invariant
                deps@ == manifest.dependencies@,
                k <= deps@.len(),
                first_outside(deps@, k as int) == first_outside(deps@, 0),
                edges@ == deps@.subrange(0, k as int).map_values(|d: Dependency| edge_of(d)),
            decreases deps@.len() - k,
        {
            let d = &deps[k];
            match &d.req {
                DepReq::Registry(c) => {
                    edges.push(IndexDep { name: d.name.clone(), req: c.clone() });
                },
                DepReq::Other(desc) => {
                    return Err(
                        Error::NonIndexDependency {
                            dependency: d.name.text.clone(),
                            resolution: desc.clone(),
                        },
                    );
                },
            }
            assert(edges@ =~= deps@.subrange(0, k + 1).map_values(|d: Dependency| edge_of(d)));
            k = k + 1;
        }
        assert(deps@.subrange(0, deps@.len() as int) =~= deps@);
        let entry = IndexEntry {
            name: manifest.name.clone(),
            version: manifest.version.clone(),
            location: Some(location.clone()),
            dependencies: edges,
            yanked: false,
        };
        let ghost new = entry_of(*manifest, *location);
        assert(entry@ == new);
        let mut kept: Vec<IndexEntry> = Vec::new();
        let mut i: usize = 0;
        while i < self.entries.len()
            invariant
                *self == *old(self),
                i <= self.entries@.len(),
                entry@ == new,
                entry_views(kept@) == entry_views(self.entries@.subrange(0, i as int)).filter(
                    |e: EntryModel| !same_entry(e, new),
                ),
            decreases self.entries@.len() - i,
        {
            let other = &self.entries[i];
            let ghost before = kept@;
            proof {
                let s = entry_views(self.entries@.subrange(0, i as int));
                assert(entry_views(self.entries@.subrange(0, i + 1)) =~= s.push(other@));
                assert(s.push(other@).drop_last() =~= s);
                reveal(Seq::filter);
            }
            let same = same_text(other.name.group.as_str(), entry.name.group.as_str()) && same_text(
                other.name.name.as_str(),
                entry.name.name.as_str(),
            ) && other.version.same_as(&entry.version);
            if !same {
                kept.push(other.clone());
                assert(entry_views(kept@) =~= entry_views(before).push(other@));
            }
            i = i + 1;
        }
        assert(self.entries@.subrange(0, self.entries@.len() as int) =~= self.entries@);
        let ghost before = kept@;
        kept.push(entry);
        assert(entry_views(kept@) =~= entry_views(before).push(new));
        self.entries = kept;
        Ok(())
    }
}

/// The entries of the lines that decoded, in order.
pub open spec fn decoded(lines: Seq<Option<IndexEntry>>) -> Seq<EntryModel>
    decreases lines.len(),
{
    if lines.len() == 0 {
        Seq::empty()
    } else {
        let rest = decoded(lines.drop_last());
        match lines.last() {
            Some(e) => rest.push(e@),
            None => rest,
        }
    }
}

} // verus!

verus! {

/// Adding an entry keeps every entry of another package or another version,
/// so after a new version is added both versions are listed.
pub proof fn lemma_other_entries_kept(es: Seq<EntryModel>, new: EntryModel, k: int)
    requires
        0 <= k < es.len(),
        !same_entry(es[k], new),
    ensures
        es.filter(|e: EntryModel| !same_entry(e, new)).push(new).contains(es[k]),
        es.filter(|e: EntryModel| !same_entry(e, new)).push(new).contains(new),
{
    let pred = |e: EntryModel| !same_entry(e, new);
    es.lemma_filter_contains(pred, k);
    let f = es.filter(pred);
    let j = choose|j: int| 0 <= j < f.len() && f[j] == es[k];
    assert(f.push(new)[j] == es[k]);
    assert(f.push(new)[f.len() as int] == new);
}

} // verus!

verus! {

/// `s` with every occurrence of `from` (taken left to right, without
/// overlap) replaced by `to`.
pub open spec fn replace_all(s: Seq<char>, from: Seq<char>, to: Seq<char>) -> Seq<char>
    decreases s.len(),
{
    if from.len() == 0 || s.len() == 0 {
        s
    } else if from.len() <= s.len() && s.subrange(0, from.len() as int) == from {
        to + replace_all(s.subrange(from.len() as int, s.len() as int), from, to)
    } else {
        seq![s[0]] + replace_all(s.subrange(1, s.len() as int), from, to)
    }
}

/// Relies on `str::replace`: every non-overlapping match of a non-empty
/// pattern, from the left, is replaced.
#[verifier::external_body]
fn replace_text(s: &str, from: &str, to: &str) -> (r: String)
    requires
        from@.len() > 0,
    ensures
        r@ == replace_all(s@, from@, to@),
{
    s.replace(from, to)
}

/// The placeholder of the readme template that the listing replaces.
pub open spec fn placeholder() -> Seq<char> {
    "{#package-list#}"@
}

/// The readme: the template with the package listing in place of its
/// placeholder.
pub fn fill_readme(template: &str, listing: &str) -> (r: String)
    ensures
        r@ == replace_all(template@, placeholder(), listing@),
{
    let marker = "{#package-list#}";
    proof {
        reveal_strlit("{#package-list#}");
    }
    replace_text(template, marker, listing)
}

/// The lines joined by line breaks, as a catalog file stores its entries.
pub open spec fn joined(lines: Seq<Seq<char>>) -> Seq<char>
    decreases lines.len(),
{
    if lines.len() == 0 {
        Seq::empty()
    } else if lines.len() == 1 {
        lines[0]
    } else {
        joined(lines.drop_last()) + seq!['\n'] + lines.last()
    }
}

/// The text of a catalog file whose entries were encoded one per line.
pub fn join_lines(lines: &Vec<String>) -> (r: String)
    ensures
        r@ == joined(lines@.map_values(|l: String| l@)),
{
    let mut v: Vec<char> = Vec::new();
    let mut k: usize = 0;
    while k < lines.len()
        invariant
            k <= lines@.len(),
            v@ == joined(lines@.subrange(0, k as int).map_values(|l: String| l@)),
        decreases lines@.len() - k,
    {
        let ghost before = lines@.subrange(0, k as int).map_values(|l: String| l@);
        if k > 0 {
            v.push('\n');
        }
        push_str(&mut v, lines[k].as_str());
        let ghost after = lines@.subrange(0, k + 1).map_values(|l: String| l@);
        assert(after.drop_last() =~= before);
        k = k + 1;
    }
    assert(lines@.subrange(0, lines@.len() as int) =~= lines@);
    string_from_chars(&v)
}

} // verus!
