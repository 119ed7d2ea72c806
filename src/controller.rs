use vstd::prelude::*;

use crate::command::{opt_view, parse_command, spec_parse, Command, Parsed};
use crate::database;
use crate::database::{Database, PackageModel};
use crate::github::url::user_profile;
use crate::github::Comment;
use crate::text::{
    lemma_text_lt_irreflexive, lemma_text_lt_total, lemma_text_lt_transitive, push_str, same_text,
    string_from_chars, text_less, text_lt,
};
use crate::version::{
    lemma_precedes_irreflexive, lemma_precedes_transitive, precedes, version_text,
};

verus! {

/// How far before the last poll a comment may have been written and still
/// be taken in, in seconds.
pub const LATE_TOLERANCE: i64 = 60;

/// What to do about one polled comment.
#[derive(Debug)]
pub enum Action {
    /// Nothing: too old, the bot's own, or already taken in.
    Skip,
    /// Taken in; it holds no command.
    Ignore,
    /// Taken in; its command is malformed and a report says so.
    ReportMalformed,
    /// Taken in; a publish attempt is to be started.
    Publish { git: String, refname: Option<String> },
}

/// Where polling stands: the server time of the last answer, if any.
#[derive(Debug)]
pub struct Poller {
    pub last_date: Option<i64>,
}

impl Poller {
    pub fn new() -> (r: Poller)
        ensures
            r.last_date is None,
    {
        Poller { last_date: None }
    }

    /// Takes in the server time of an answer. The first answer only sets the
    /// baseline (`None`: nothing is processed); later ones hand back the
    /// previous time, against which the comments are judged.
    pub fn on_answer(&mut self, date: i64) -> (r: Option<i64>)
        ensures
            final(self).last_date == Some(date),
            r == old(self).last_date,
    {
        let previous = self.last_date;
        self.last_date = Some(date);
        previous
    }
}

/// Whether a polled comment is new work: not older than the tolerance
/// before `since`, not written by the bot, and not yet in the ledger.
pub open spec fn accepts(
    comments: Map<i64, database::Comment>,
    c: Comment,
    since: i64,
    viewer_id: i64,
) -> bool {
    &&& c.created_at >= since - LATE_TOLERANCE
    &&& c.user.id != viewer_id
    &&& !comments.contains_key(c.id)
}

/// The ledger row of a polled comment.
pub open spec fn row_of(c: Comment) -> database::Comment {
    database::Comment { id: c.id, user_id: c.user.id, body: c.body, created_at: c.created_at }
}

/// The action a taken-in comment calls for, by what its body means.
pub open spec fn action_fits(a: Action, p: Parsed) -> bool {
    match p {
        Parsed::NoCommand => a is Ignore,
        Parsed::Malformed => a is ReportMalformed,
        Parsed::Publish { git, refname } => a matches Action::Publish { git: g, refname: r }
            && g@ == git && opt_view(r) == refname,
    }
}

/// Decides about one polled comment. A comment that is new work is written
/// into the ledger, with its author, before its command is looked at.
pub fn handle_comment(
    db: &mut Database,
    comment: &Comment,
    since: i64,
    viewer_id: i64,
    bot_name: &str,
) -> (r: Action)
    requires
        old(db).wf(),
    ensures
        final(db).wf(),
        old(db).owners_known() ==> final(db).owners_known(),
        final(db).records() == old(db).records(),
        !accepts(old(db).comments@, *comment, since, viewer_id) ==> r is Skip && final(db).users@
            == old(db).users@ && final(db).comments@ == old(db).comments@,
        accepts(old(db).comments@, *comment, since, viewer_id) ==> {
            &&& final(db).users@ == old(db).users@.insert(comment.user.id, comment.user.name)
            &&& final(db).comments@ == old(db).comments@.insert(comment.id, row_of(*comment))
            &&& action_fits(r, spec_parse(comment.body@, bot_name@))
        },
{
    if (comment.created_at as i128) < (since as i128) - (LATE_TOLERANCE as i128) {
        return Action::Skip;
    }
    if comment.user.id == viewer_id {
        return Action::Skip;
    }
    if db.query_comment(comment.id).is_some() {
        return Action::Skip;
    }
    db.insert_user(database::User { id: comment.user.id, name: comment.user.name.clone() });
    let row = database::Comment {
        id: comment.id,
        user_id: comment.user.id,
        body: comment.body.clone(),
        created_at: comment.created_at,
    };
    let _ = db.insert_comment(row);
    match parse_command(comment.body.as_str(), bot_name) {
        Ok(Some(Command::Publish { git, refname })) => Action::Publish { git, refname },
        Ok(None) => Action::Ignore,
        Err(_) => Action::ReportMalformed,
    }
}

/// Whether two records are of the same package (versions aside).
pub open spec fn same_key(a: PackageModel, b: PackageModel) -> bool {
    a.group == b.group && a.name == b.name
}

/// One line of the readme listing.
pub open spec fn line_text(p: PackageModel, owner: Seq<char>) -> Seq<char> {
    let description = match p.description {
        Some(d) => d,
        None => "no description"@,
    };
    "- `"@ + p.group + seq!['/'] + p.name + seq![' '] + version_text(p.version) + "` *"@
        + description + "* @["@ + owner + "]("@ + "https://github.com/"@ + owner + ")\n"@
}

/// The lines of the records at `idx`, each naming its owner.
pub open spec fn listing_text(
    ps: Seq<PackageModel>,
    users: Map<i64, String>,
    idx: Seq<int>,
) -> Seq<char>
    decreases idx.len(),
{
    if idx.len() == 0 {
        Seq::empty()
    } else {
        let p = ps[idx.last()];
        listing_text(ps, users, idx.drop_last()) + line_text(p, users[p.user_id]@)
    }
}

fn same_key_at(db: &Database, a: usize, b: usize) -> (r: bool)
    requires
        a < db.records().len(),
        b < db.records().len(),
    ensures
        r == same_key(db.records()[a as int], db.records()[b as int]),
{
    same_text(db.packages[a].group.as_str(), db.packages[b].group.as_str()) && same_text(
        db.packages[a].name.as_str(),
        db.packages[b].name.as_str(),
    )
}

fn push_line(v: &mut Vec<char>, p: &database::Package, owner: &str)
    ensures
        final(v)@ == old(v)@ + line_text(p@, owner@),
{
    push_str(v, "- `");
    push_str(v, p.group.as_str());
    v.push('/');
    push_str(v, p.name.as_str());
    v.push(' ');
    p.version.write_to(v);
    push_str(v, "` *");
    match &p.description {
        Some(d) => push_str(v, d.as_str()),
        None => push_str(v, "no description"),
    }
    push_str(v, "* @[");
    push_str(v, owner);
    push_str(v, "](");
    let profile = user_profile(owner);
    push_str(v, profile.as_str());
    push_str(v, ")\n");
    assert(final(v)@ =~= old(v)@ + line_text(p@, owner@));
}

} // verus!

verus! {

/// The ledger's comments after a polled comment has been handled.
pub open spec fn comments_after(
    comments: Map<i64, database::Comment>,
    c: Comment,
    since: i64,
    viewer_id: i64,
) -> Map<i64, database::Comment> {
    if accepts(comments, c, since, viewer_id) {
        comments.insert(c.id, row_of(c))
    } else {
        comments
    }
}

/// Handling the same comment twice takes it in at most once, so at most one
/// publish attempt is started for it; once taken in, it is skipped on every
/// later poll.
pub proof fn lemma_replay_taken_in_once(
    comments: Map<i64, database::Comment>,
    c: Comment,
    since: i64,
    later_since: i64,
    viewer_id: i64,
)
    ensures
        !(accepts(comments, c, since, viewer_id) && accepts(
            comments_after(comments, c, since, viewer_id),
            c,
            since,
            viewer_id,
        )),
        accepts(comments, c, since, viewer_id) ==> !accepts(
            comments_after(comments, c, since, viewer_id),
            c,
            later_since,
            viewer_id,
        ),
{
}

} // verus!


verus! {

/// The order of the readme listing: by group, then by name, each compared
/// as text.
pub open spec fn key_lt(a: PackageModel, b: PackageModel) -> bool {
    text_lt(a.group, b.group) || (a.group == b.group && text_lt(a.name, b.name))
}

/// `idx` picks the listed records of `ps`: packages in ascending order, every
/// package of the ledger once, each at a record that no other record of that
/// package is newer than.
pub open spec fn is_listing(ps: Seq<PackageModel>, idx: Seq<int>) -> bool {
    &&& in_range(ps, idx)
    &&& ascending(ps, idx)
    &&& forall|k: int| 0 <= k < ps.len() ==> #[trigger] listed(ps, idx, k)
    &&& newest(ps, idx)
}

/// Every position of `idx` is a record of `ps`.
pub open spec fn in_range(ps: Seq<PackageModel>, idx: Seq<int>) -> bool {
    forall|t: int| 0 <= t < idx.len() ==> 0 <= #[trigger] idx[t] < ps.len()
}

/// The packages at `idx` come in strictly ascending order.
pub open spec fn ascending(ps: Seq<PackageModel>, idx: Seq<int>) -> bool {
    forall|t1: int, t2: int|
        0 <= t1 < t2 < idx.len() ==> key_lt(ps[#[trigger] idx[t1]], ps[#[trigger] idx[t2]])
}

/// The package of record `k` is listed at `idx`.
pub open spec fn listed(ps: Seq<PackageModel>, idx: Seq<int>, k: int) -> bool {
    exists|t: int| 0 <= t < idx.len() && same_key(ps[#[trigger] idx[t]], ps[k])
}

/// No record is newer than the listed record of its package.
pub open spec fn newest(ps: Seq<PackageModel>, idx: Seq<int>) -> bool {
    forall|t: int, k: int|
        0 <= t < idx.len() && 0 <= k < ps.len() && same_key(#[trigger] ps[k], ps[#[trigger] idx[t]])
            ==> !precedes(ps[idx[t]].version, ps[k].version)
}

/// Whether `text` is the readme listing of the records `ps`.
pub open spec fn is_listing_text(
    ps: Seq<PackageModel>,
    users: Map<i64, String>,
    text: Seq<char>,
) -> bool {
    exists|idx: Seq<int>| is_listing(ps, idx) && text == listing_text(ps, users, idx)
}

proof fn lemma_key_lt_transitive(a: PackageModel, b: PackageModel, c: PackageModel)
    requires
        key_lt(a, b),
        key_lt(b, c),
    ensures
        key_lt(a, c),
{
    if text_lt(a.group, b.group) && text_lt(b.group, c.group) {
        lemma_text_lt_transitive(a.group, b.group, c.group, 0);
    } else if a.group == b.group && b.group == c.group {
        lemma_text_lt_transitive(a.name, b.name, c.name, 0);
    }
}

proof fn lemma_key_lt_irreflexive(a: PackageModel)
    ensures
        !key_lt(a, a),
{
    lemma_text_lt_irreflexive(a.group, 0);
    lemma_text_lt_irreflexive(a.name, 0);
}

proof fn lemma_key_total(a: PackageModel, b: PackageModel)
    ensures
        key_lt(a, b) || key_lt(b, a) || same_key(a, b),
{
    if !key_lt(a, b) && !key_lt(b, a) {
        assert(a.group.subrange(0, 0) =~= b.group.subrange(0, 0));
        lemma_text_lt_total(a.group, b.group, 0);
        assert(a.name.subrange(0, 0) =~= b.name.subrange(0, 0));
        lemma_text_lt_total(a.name, b.name, 0);
    }
}

/// Whether record `j` comes after the record `last` in listing order (every
/// record does where nothing is listed yet).
pub open spec fn above(ps: Seq<PackageModel>, last: Option<int>, j: int) -> bool {
    match last {
        None => true,
        Some(l) => key_lt(ps[l], ps[j]),
    }
}

/// How many of the first `n` records come after `last`.
pub open spec fn count_above(ps: Seq<PackageModel>, last: Option<int>, n: int) -> nat
    decreases n,
{
    if n <= 0 {
        0
    } else {
        count_above(ps, last, n - 1) + if above(ps, last, n - 1) {
            1nat
        } else {
            0nat
        }
    }
}

proof fn lemma_count_shrinks(
    ps: Seq<PackageModel>,
    lo: Option<int>,
    hi: Option<int>,
    n: int,
    m: int,
)
    requires
        0 <= n,
        forall|j: int| 0 <= j < n && above(ps, hi, j) ==> above(ps, lo, j),
        m < n ==> 0 <= m && above(ps, lo, m) && !above(ps, hi, m),
    ensures
        count_above(ps, hi, n) <= count_above(ps, lo, n),
        m < n ==> count_above(ps, hi, n) < count_above(ps, lo, n),
    decreases n,
{
    if n > 0 {
        lemma_count_shrinks(ps, lo, hi, n - 1, m);
    }
}

fn key_less(db: &Database, a: usize, b: usize) -> (r: bool)
    requires
        a < db.records().len(),
        b < db.records().len(),
    ensures
        r == key_lt(db.records()[a as int], db.records()[b as int]),
{
    let pa = &db.packages[a];
    let pb = &db.packages[b];
    text_less(pa.group.as_str(), pb.group.as_str()) || (same_text(
        pa.group.as_str(),
        pb.group.as_str(),
    ) && text_less(pa.name.as_str(), pb.name.as_str()))
}

/// The record that is listed next after `last`: among the records after it,
/// one of the first package in order, not older than any other record of
/// that package; `None` where no record comes after `last`.
fn next_listed(db: &Database, last: Option<usize>) -> (r: Option<usize>)
    requires
        last is Some ==> last->0 < db.records().len(),
    ensures
        ({
            let ps = db.records();
            let lg = last_int(last);
            match r {
                None => forall|k: int| 0 <= k < ps.len() ==> !above(ps, lg, k),
                Some(m) => listed_next(ps, lg, m as int),
            }
        }),
{
    let ghost ps = db.records();
    let ghost lg = match last {
        Some(l) => Some(l as int),
        None => None,
    };
    let n = db.packages.len();
    let mut m: Option<usize> = None;
    let mut j: usize = 0;
    while j < n
        invariant
            ps == db.records(),
            n == ps.len(),
            lg == match last {
                Some(l) => Some(l as int),
                None => None::<int>,
            },
            last is Some ==> last->0 < n,
            j <= n,
            m is None ==> forall|k: int| 0 <= k < j ==> !above(ps, lg, k),
            m is Some ==> m->0 < j && above(ps, lg, m->0 as int),
            m is Some ==> forall|k: int|
                0 <= k < j && above(ps, lg, k) ==> key_lt(ps[m->0 as int], ps[k]) || (same_key(
                    ps[m->0 as int],
                    ps[k],
                ) && !precedes(ps[m->0 as int].version, ps[k].version)),
        decreases n - j,
    {
        let is_above = match last {
            None => true,
            Some(l) => key_less(db, l, j),
        };
        if is_above {
            proof {
                lemma_precedes_irreflexive(ps[j as int].version);
                lemma_key_lt_irreflexive(ps[j as int]);
            }
            match m {
                None => {
                    m = Some(j);
                },
                Some(b) => {
                    let better = key_less(db, j, b) || (same_key_at(db, j, b)
                        && db.packages[b].version.older_than(&db.packages[j].version));
                    proof {
                        let (pj, pb) = (ps[j as int], ps[b as int]);
                        if better {
                            assert forall|k: int| 0 <= k < j + 1 && above(ps, lg, k) implies key_lt(
                                pj,
                                ps[k],
                            ) || (same_key(pj, ps[k]) && !precedes(pj.version, ps[k].version)) by {
                                if k < j {
                                    if key_lt(pj, pb) && key_lt(pb, ps[k]) {
                                        lemma_key_lt_transitive(pj, pb, ps[k]);
                                    }
                                    if same_key(pj, pb) && precedes(pb.version, pj.version)
                                        && same_key(pb, ps[k]) && precedes(
                                        pj.version,
                                        ps[k].version,
                                    ) {
                                        lemma_precedes_transitive(
                                            pb.version,
                                            pj.version,
                                            ps[k].version,
                                        );
                                    }
                                }
                            }
                        } else {
                            lemma_key_total(pb, pj);
                        }
                    }
                    if better {
                        m = Some(j);
                    }
                },
            }
        }
        j = j + 1;
    }
    m
}

/// The optional position `last` as an integer.
pub open spec fn last_int(last: Option<usize>) -> Option<int> {
    match last {
        Some(l) => Some(l as int),
        None => None,
    }
}

/// `idx` is the beginning of the listing of `ps`, up to the record `lg`.
pub open spec fn listing_prefix(ps: Seq<PackageModel>, idx: Seq<int>, lg: Option<int>) -> bool {
    &&& lg is None <==> idx.len() == 0
    &&& lg is Some ==> 0 <= lg->0 < ps.len() && idx.last() == lg->0
    &&& in_range(ps, idx)
    &&& ascending(ps, idx)
    &&& forall|k: int| 0 <= k < ps.len() && !above(ps, lg, k) ==> #[trigger] listed(ps, idx, k)
    &&& newest(ps, idx)
}

/// Whether `m` is the record that is listed next after `lg`.
pub open spec fn listed_next(ps: Seq<PackageModel>, lg: Option<int>, m: int) -> bool {
    &&& 0 <= m < ps.len()
    &&& above(ps, lg, m)
    &&& forall|k: int|
        0 <= k < ps.len() && above(ps, lg, k) ==> key_lt(ps[m], #[trigger] ps[k]) || (same_key(
            ps[m],
            ps[k],
        ) && !precedes(ps[m].version, ps[k].version))
}

proof fn lemma_listing_step(ps: Seq<PackageModel>, idx: Seq<int>, lg: Option<int>, m: int)
    requires
        listing_prefix(ps, idx, lg),
        listed_next(ps, lg, m),
    ensures
        listing_prefix(ps, idx.push(m), Some(m)),
        count_above(ps, Some(m), ps.len() as int) < count_above(ps, lg, ps.len() as int),
{
    let pm = ps[m];
    let nidx = idx.push(m);
    lemma_key_lt_irreflexive(pm);
    assert forall|t1: int, t2: int| 0 <= t1 < t2 < nidx.len() implies key_lt(
        ps[#[trigger] nidx[t1]],
        ps[#[trigger] nidx[t2]],
    ) by {
        if t2 == nidx.len() - 1 {
            assert(above(ps, lg, m));
            if t1 < idx.len() - 1 {
                assert(key_lt(ps[idx[t1]], ps[idx[idx.len() - 1]]));
                lemma_key_lt_transitive(ps[idx[t1]], ps[idx[idx.len() - 1]], pm);
            }
        } else {
            assert(nidx[t1] == idx[t1] && nidx[t2] == idx[t2]);
        }
    }
    assert forall|k: int| 0 <= k < ps.len() && !above(ps, Some(m), k) implies #[trigger] listed(
        ps,
        nidx,
        k,
    ) by {
        if above(ps, lg, k) {
            assert(same_key(pm, ps[k]));
            assert(same_key(ps[nidx[nidx.len() - 1]], ps[k]));
        } else {
            assert(listed(ps, idx, k));
            let t = choose|t: int| 0 <= t < idx.len() && same_key(ps[idx[t]], ps[k]);
            assert(nidx[t] == idx[t]);
            assert(same_key(ps[nidx[t]], ps[k]));
        }
    }
    assert forall|t: int, k: int|
        0 <= t < nidx.len() && 0 <= k < ps.len() && same_key(#[trigger] ps[k], ps[#[trigger] nidx[t]])
            implies !precedes(ps[nidx[t]].version, ps[k].version) by {
        if t == nidx.len() - 1 {
            assert(above(ps, lg, k));
        } else {
            assert(nidx[t] == idx[t]);
        }
    }
    assert forall|j: int| 0 <= j < ps.len() && above(ps, Some(m), j) implies above(ps, lg, j) by {
        if let Some(l) = lg {
            lemma_key_lt_transitive(ps[l], pm, ps[j]);
        }
    }
    lemma_count_shrinks(ps, lg, Some(m), ps.len() as int, m);
}

proof fn lemma_listing_done(ps: Seq<PackageModel>, idx: Seq<int>, lg: Option<int>)
    requires
        listing_prefix(ps, idx, lg),
        forall|k: int| 0 <= k < ps.len() ==> !above(ps, lg, k),
    ensures
        is_listing(ps, idx),
{
    assert forall|k: int| 0 <= k < ps.len() implies #[trigger] listed(ps, idx, k) by {
        assert(!above(ps, lg, k));
    }
}

/// The readme listing: one line per package, ascending by group and name,
/// each at its newest version.
pub fn render_readme_package_list(db: &Database) -> (r: String)
    requires
        db.wf(),
        db.owners_known(),
    ensures
        is_listing_text(db.records(), db.users@, r@),
{
    let ghost ps = db.records();
    let mut v: Vec<char> = Vec::new();
    let ghost mut idx: Seq<int> = Seq::empty();
    let mut last: Option<usize> = None;
    loop
        invariant
            db.owners_known(),
            ps == db.records(),
            v@ == listing_text(ps, db.users@, idx),
            listing_prefix(ps, idx, last_int(last)),
        decreases count_above(ps, last_int(last), ps.len() as int),
    {
        match next_listed(db, last) {
            None => {
                proof {
                    lemma_listing_done(ps, idx, last_int(last));
                }
                return string_from_chars(&v);
            },
            Some(m) => {
                let p = &db.packages[m];
                assert(db.users@.contains_key(db.records()[m as int].user_id));
                let owner = match db.query_user(p.user_id) {
                    Some(u) => u.name,
                    None => String::new(),
                };
                push_line(&mut v, p, owner.as_str());
                proof {
                    lemma_listing_step(ps, idx, last_int(last), m as int);
                    assert(idx.push(m as int).drop_last() =~= idx);
                    idx = idx.push(m as int);
                }
                last = Some(m);
            },
        }
    }
}

} // verus!
