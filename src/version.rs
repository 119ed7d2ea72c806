use vstd::prelude::*;

use crate::text::{
    decimal, lemma_text_lt_irreflexive, lemma_text_lt_transitive, push_decimal, push_str,
    string_from_chars, text_less, text_lt,
};

verus! {

/// One dot-separated part of a pre-release or build label.
#[derive(Debug)]
pub enum Identifier {
    Numeric(u64),
    AlphaNumeric(String),
}

pub enum IdentifierModel {
    Numeric(u64),
    AlphaNumeric(Seq<char>),
}

impl View for Identifier {
    type V = IdentifierModel;

    open spec fn view(&self) -> IdentifierModel {
        match self {
            Identifier::Numeric(n) => IdentifierModel::Numeric(*n),
            Identifier::AlphaNumeric(s) => IdentifierModel::AlphaNumeric(s@),
        }
    }
}

/// A semantic version. The build label plays no part in equality or order.
#[derive(Debug)]
pub struct Version {
    pub major: u64,
    pub minor: u64,
    pub patch: u64,
    pub pre: Vec<Identifier>,
    pub build: Vec<Identifier>,
}

/// A version as a mathematical value.
pub struct VersionModel {
    pub major: u64,
    pub minor: u64,
    pub patch: u64,
    pub pre: Seq<IdentifierModel>,
    pub build: Seq<IdentifierModel>,
}

impl View for Version {
    type V = VersionModel;

    open spec fn view(&self) -> VersionModel {
        VersionModel {
            major: self.major,
            minor: self.minor,
            patch: self.patch,
            pre: ids_view(self.pre@),
            build: ids_view(self.build@),
        }
    }
}

pub open spec fn ids_view(v: Seq<Identifier>) -> Seq<IdentifierModel> {
    v.map_values(|i: Identifier| i@)
}

/// Numeric parts come before alphanumeric ones; each kind in its own order.
pub open spec fn id_lt(a: IdentifierModel, b: IdentifierModel) -> bool {
    match (a, b) {
        (IdentifierModel::Numeric(x), IdentifierModel::Numeric(y)) => x < y,
        (IdentifierModel::Numeric(_), IdentifierModel::AlphaNumeric(_)) => true,
        (IdentifierModel::AlphaNumeric(_), IdentifierModel::Numeric(_)) => false,
        (IdentifierModel::AlphaNumeric(x), IdentifierModel::AlphaNumeric(y)) => text_lt(x, y),
    }
}

/// Lexicographic order of label parts from position `k` on.
pub open spec fn ids_lt_from(a: Seq<IdentifierModel>, b: Seq<IdentifierModel>, k: int) -> bool
    decreases a.len() - k,
{
    if k >= a.len() {
        k < b.len()
    } else if k >= b.len() {
        false
    } else if a[k] != b[k] {
        id_lt(a[k], b[k])
    } else {
        ids_lt_from(a, b, k + 1)
    }
}

/// Whether release `a` precedes release `b`: by major, minor and patch, then
/// a pre-release before the release itself, then by pre-release parts.
pub open spec fn precedes(a: VersionModel, b: VersionModel) -> bool {
    let (pa, pb) = (a.pre, b.pre);
    if a.major != b.major {
        a.major < b.major
    } else if a.minor != b.minor {
        a.minor < b.minor
    } else if a.patch != b.patch {
        a.patch < b.patch
    } else if pa.len() == 0 {
        false
    } else if pb.len() == 0 {
        true
    } else {
        ids_lt_from(pa, pb, 0)
    }
}

/// Equality of versions, which leaves the build label aside.
pub open spec fn same_version(a: VersionModel, b: VersionModel) -> bool {
    a.major == b.major && a.minor == b.minor && a.patch == b.patch && a.pre == b.pre
}

fn id_equal(a: &Identifier, b: &Identifier) -> (r: bool)
    ensures
        r == (a@ == b@),
{
    match (a, b) {
        (Identifier::Numeric(x), Identifier::Numeric(y)) => *x == *y,
        (Identifier::AlphaNumeric(x), Identifier::AlphaNumeric(y)) => x.eq(y),
        _ => false,
    }
}

fn id_less(a: &Identifier, b: &Identifier) -> (r: bool)
    ensures
        r == id_lt(a@, b@),
{
    match (a, b) {
        (Identifier::Numeric(x), Identifier::Numeric(y)) => *x < *y,
        (Identifier::Numeric(_), Identifier::AlphaNumeric(_)) => true,
        (Identifier::AlphaNumeric(_), Identifier::Numeric(_)) => false,
        (Identifier::AlphaNumeric(x), Identifier::AlphaNumeric(y)) => text_less(x.as_str(), y.as_str()),
    }
}

fn ids_equal(a: &Vec<Identifier>, b: &Vec<Identifier>) -> (r: bool)
    ensures
        r == (ids_view(a@) == ids_view(b@)),
{
    if a.len() != b.len() {
        assert(ids_view(a@).len() != ids_view(b@).len());
        return false;
    }
    let mut k: usize = 0;
    while k < a.len()
        invariant
            a@.len() == b@.len(),
            k <= a@.len(),
            forall|m: int| 0 <= m < k ==> a@[m]@ == b@[m]@,
        decreases a@.len() - k,
    {
        if !id_equal(&a[k], &b[k]) {
            assert(ids_view(a@)[k as int] != ids_view(b@)[k as int]);
            return false;
        }
        k = k + 1;
    }
    assert(ids_view(a@) =~= ids_view(b@));
    true
}

fn ids_less(a: &Vec<Identifier>, b: &Vec<Identifier>) -> (r: bool)
    ensures
        r == ids_lt_from(ids_view(a@), ids_view(b@), 0),
{
    let ghost (va, vb) = (ids_view(a@), ids_view(b@));
    let mut k: usize = 0;
    while k < a.len() && k < b.len() && id_equal(&a[k], &b[k])
        invariant
            va == ids_view(a@),
            vb == ids_view(b@),
            k <= a@.len(),
            k <= b@.len(),
            ids_lt_from(va, vb, k as int) == ids_lt_from(va, vb, 0),
        decreases a@.len() - k,
    {
        k = k + 1;
    }
    if k >= a.len() {
        k < b.len()
    } else if k >= b.len() {
        false
    } else {
        id_less(&a[k], &b[k])
    }
}

/// The text of a label: its parts joined by dots.
pub open spec fn ids_text(v: Seq<IdentifierModel>) -> Seq<char>
    decreases v.len(),
{
    if v.len() == 0 {
        Seq::empty()
    } else {
        let last = match v.last() {
            IdentifierModel::Numeric(n) => decimal(n as nat),
            IdentifierModel::AlphaNumeric(s) => s,
        };
        if v.len() == 1 {
            last
        } else {
            ids_text(v.drop_last()) + seq!['.'] + last
        }
    }
}

/// The usual text of a version: `major.minor.patch`, then `-pre` and `+build`
/// where those labels are not empty.
pub open spec fn version_text(v: VersionModel) -> Seq<char> {
    let (pre, build) = (v.pre, v.build);
    let core = decimal(v.major as nat) + seq!['.'] + decimal(v.minor as nat) + seq!['.'] + decimal(
        v.patch as nat,
    );
    let with_pre = if pre.len() == 0 {
        core
    } else {
        core + seq!['-'] + ids_text(pre)
    };
    if build.len() == 0 {
        with_pre
    } else {
        with_pre + seq!['+'] + ids_text(build)
    }
}

fn push_ids(out: &mut Vec<char>, v: &Vec<Identifier>)
    ensures
        final(out)@ == old(out)@ + ids_text(ids_view(v@)),
{
    let mut k: usize = 0;
    while k < v.len()
        invariant
            k <= v@.len(),
            out@ == old(out)@ + ids_text(ids_view(v@.subrange(0, k as int))),
        decreases v@.len() - k,
    {
        let ghost before = out@;
        if k > 0 {
            out.push('.');
        }
        match &v[k] {
            Identifier::Numeric(n) => push_decimal(out, *n),
            Identifier::AlphaNumeric(s) => push_str(out, s.as_str()),
        }
        proof {
            let head = ids_view(v@.subrange(0, k as int));
            let next = ids_view(v@.subrange(0, k + 1));
            assert(next.drop_last() =~= head);
            assert(next.last() == v@[k as int]@);
        }
        k = k + 1;
    }
    assert(v@.subrange(0, v@.len() as int) =~= v@);
}

impl Clone for Identifier {
    fn clone(&self) -> (r: Self)
        ensures
            r == *self,
    {
        match self {
            Identifier::Numeric(n) => Identifier::Numeric(*n),
            Identifier::AlphaNumeric(s) => Identifier::AlphaNumeric(s.clone()),
        }
    }
}

fn clone_ids(v: &Vec<Identifier>) -> (r: Vec<Identifier>)
    ensures
        r@ == v@,
{
    let mut r: Vec<Identifier> = Vec::new();
    let mut k: usize = 0;
    while k < v.len()
        invariant
            k <= v@.len(),
            r@ == v@.subrange(0, k as int),
        decreases v@.len() - k,
    {
        r.push(v[k].clone());
        k = k + 1;
    }
    assert(v@.subrange(0, v@.len() as int) =~= v@);
    r
}

impl Clone for Version {
    fn clone(&self) -> (r: Self)
        ensures
            r@ == self@,
    {
        let pre = clone_ids(&self.pre);
        let build = clone_ids(&self.build);
        Version { major: self.major, minor: self.minor, patch: self.patch, pre, build }
    }
}

impl Version {
    /// Whether `self` precedes `other` in release order.
    pub fn older_than(&self, other: &Version) -> (r: bool)
        ensures
            r == precedes(self@, other@),
    {
        if self.major != other.major {
            self.major < other.major
        } else if self.minor != other.minor {
            self.minor < other.minor
        } else if self.patch != other.patch {
            self.patch < other.patch
        } else if self.pre.len() == 0 {
            false
        } else if other.pre.len() == 0 {
            true
        } else {
            ids_less(&self.pre, &other.pre)
        }
    }

    /// Whether the two name the same release (build labels aside).
    pub fn same_as(&self, other: &Version) -> (r: bool)
        ensures
            r == same_version(self@, other@),
    {
        self.major == other.major && self.minor == other.minor && self.patch == other.patch
            && ids_equal(&self.pre, &other.pre)
    }

    /// Appends the version's text to `out`.
    pub fn write_to(&self, out: &mut Vec<char>)
        ensures
            final(out)@ == old(out)@ + version_text(self@),
    {
        push_decimal(out, self.major);
        out.push('.');
        push_decimal(out, self.minor);
        out.push('.');
        push_decimal(out, self.patch);
        if self.pre.len() > 0 {
            out.push('-');
            push_ids(out, &self.pre);
        }
        if self.build.len() > 0 {
            out.push('+');
            push_ids(out, &self.build);
        }
        assert(final(out)@ =~= old(out)@ + version_text(self@));
    }

    /// The version's text, such as `1.0.2-beta.1`.
    pub fn to_string(&self) -> (r: String)
        ensures
            r@ == version_text(self@),
    {
        let mut v: Vec<char> = Vec::new();
        self.write_to(&mut v);
        assert(v@ =~= version_text(self@));
        string_from_chars(&v)
    }
}

} // verus!

verus! {

proof fn lemma_id_lt_transitive(a: IdentifierModel, b: IdentifierModel, c: IdentifierModel)
    requires
        id_lt(a, b),
        id_lt(b, c),
    ensures
        id_lt(a, c),
{
    if let (
        IdentifierModel::AlphaNumeric(x),
        IdentifierModel::AlphaNumeric(y),
        IdentifierModel::AlphaNumeric(z),
    ) = (a, b, c) {
        lemma_text_lt_transitive(x, y, z, 0);
    }
}

proof fn lemma_id_lt_irreflexive(a: IdentifierModel)
    ensures
        !id_lt(a, a),
{
    if let IdentifierModel::AlphaNumeric(x) = a {
        lemma_text_lt_irreflexive(x, 0);
    }
}

proof fn lemma_ids_lt_transitive(
    a: Seq<IdentifierModel>,
    b: Seq<IdentifierModel>,
    c: Seq<IdentifierModel>,
    k: int,
)
    requires
        0 <= k,
        ids_lt_from(a, b, k),
        ids_lt_from(b, c, k),
    ensures
        ids_lt_from(a, c, k),
    decreases a.len() - k,
{
    if k < a.len() && k < b.len() && k < c.len() {
        if a[k] == b[k] && b[k] == c[k] {
            lemma_ids_lt_transitive(a, b, c, k + 1);
        } else if a[k] != b[k] && b[k] != c[k] {
            lemma_id_lt_transitive(a[k], b[k], c[k]);
            if a[k] == c[k] {
                lemma_id_lt_irreflexive(a[k]);
            }
        }
    }
}

/// Release order is transitive: where `a` precedes `b` and `b` precedes
/// `c`, `a` precedes `c`.
pub proof fn lemma_precedes_transitive(a: VersionModel, b: VersionModel, c: VersionModel)
    requires
        precedes(a, b),
        precedes(b, c),
    ensures
        precedes(a, c),
{
    if a.major == b.major && b.major == c.major && a.minor == b.minor && b.minor == c.minor
        && a.patch == b.patch && b.patch == c.patch && a.pre.len() > 0 && b.pre.len() > 0
        && c.pre.len() > 0 {
        lemma_ids_lt_transitive(a.pre, b.pre, c.pre, 0);
    }
}

} // verus!

verus! {

proof fn lemma_ids_lt_irreflexive(a: Seq<IdentifierModel>, k: int)
    requires
        0 <= k,
    ensures
        !ids_lt_from(a, a, k),
    decreases a.len() - k,
{
    if k < a.len() {
        lemma_ids_lt_irreflexive(a, k + 1);
    }
}

/// No release precedes itself.
pub proof fn lemma_precedes_irreflexive(a: VersionModel)
    ensures
        !precedes(a, a),
{
    lemma_ids_lt_irreflexive(a.pre, 0);
}

} // verus!
