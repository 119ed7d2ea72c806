use vstd::prelude::*;
use vstd::string::*;

use crate::error::Error;

verus! {

/// A command that a comment can carry.
#[derive(Debug, PartialEq, Eq)]
pub enum Command {
    Publish { git: String, refname: Option<String> },
}

/// What a comment body means, on character sequences.
pub enum Parsed {
    NoCommand,
    Malformed,
    Publish { git: Seq<char>, refname: Option<Seq<char>> },
}

/// The separators between tokens of a command.
pub open spec fn is_space(c: char) -> bool {
    c == ' ' || c == '\t' || c == '\r' || c == '\n'
}

/// Unicode's `White_Space` property, which ends a word.
pub open spec fn is_white(c: char) -> bool {
    let n = c as u32;
    (0x09 <= n && n <= 0x0d) || n == 0x20 || n == 0x85 || n == 0xa0 || n == 0x1680 || (0x2000
        <= n && n <= 0x200a) || n == 0x2028 || n == 0x2029 || n == 0x202f || n == 0x205f || n
        == 0x3000
}

/// The first position at or after `i` that is not a separator.
pub open spec fn skip_spaces(s: Seq<char>, i: int) -> int
    decreases s.len() - i,
{
    if 0 <= i < s.len() && is_space(s[i]) {
        skip_spaces(s, i + 1)
    } else {
        i
    }
}

/// The first position at or after `i` that holds white space, or the end.
pub open spec fn word_end(s: Seq<char>, i: int) -> int
    decreases s.len() - i,
{
    if 0 <= i < s.len() && !is_white(s[i]) {
        word_end(s, i + 1)
    } else {
        i
    }
}

pub open spec fn starts_at(s: Seq<char>, i: int, p: Seq<char>) -> bool {
    0 <= i && i + p.len() <= s.len() && s.subrange(i, i + p.len()) == p
}

pub open spec fn publish_word() -> Seq<char> {
    seq!['/', 'p', 'u', 'b', 'l', 'i', 's', 'h']
}

/// The comment grammar: optional separators, `@<bot>`, separators,
/// `/publish`, separators, a source word, and optionally separators and a
/// ref word; anything after the ref is ignored.
pub open spec fn spec_parse(s: Seq<char>, bot: Seq<char>) -> Parsed {
    let mention = seq!['@'] + bot;
    let i0 = skip_spaces(s, 0);
    if !starts_at(s, i0, mention) {
        Parsed::NoCommand
    } else {
    let i1 = i0 + mention.len();
        let i2 = skip_spaces(s, i1);
        let i3 = i2 + publish_word().len();
        let i4 = skip_spaces(s, i3);
        let i5 = word_end(s, i4);
        let i6 = skip_spaces(s, i5);
        let i7 = word_end(s, i6);
        if i2 == i1 || !starts_at(s, i2, publish_word()) || i4 == i3 || i5 == i4 {
            Parsed::Malformed
        } else if i6 > i5 && i7 > i6 {
            Parsed::Publish { git: s.subrange(i4, i5), refname: Some(s.subrange(i6, i7)) }
        } else {
            Parsed::Publish { git: s.subrange(i4, i5), refname: None }
        }
    }
}

pub open spec fn opt_view(o: Option<String>) -> Option<Seq<char>> {
    match o {
        Some(x) => Some(x@),
        None => None,
    }
}

/// What a parse result says, on character sequences.
pub open spec fn outcome(r: Result<Option<Command>, Error>) -> Parsed {
    match r {
        Ok(None) => Parsed::NoCommand,
        Ok(Some(Command::Publish { git, refname })) => Parsed::Publish {
            git: git@,
            refname: opt_view(refname),
        },
        Err(_) => Parsed::Malformed,
    }
}

fn is_space_char(c: char) -> (r: bool)
    ensures
        r == is_space(c),
{
    c == ' ' || c == '\t' || c == '\r' || c == '\n'
}

fn is_white_char(c: char) -> (r: bool)
    ensures
        r == is_white(c),
{
    let n = c as u32;
    (0x09 <= n && n <= 0x0d) || n == 0x20 || n == 0x85 || n == 0xa0 || n == 0x1680 || (0x2000
        <= n && n <= 0x200a) || n == 0x2028 || n == 0x2029 || n == 0x202f || n == 0x205f || n
        == 0x3000
}

fn chars_of(s: &str) -> (r: Vec<char>)
    ensures
        r@ == s@,
{
    let n = s.unicode_len();
    let mut r: Vec<char> = Vec::new();
    let mut i: usize = 0;
    while i < n
        invariant
            n == s@.len(),
            i <= n,
            r@ == s@.subrange(0, i as int),
        decreases n - i,
    {
        r.push(s.get_char(i));
        i = i + 1;
    }
    r
}

fn skip_spaces_at(s: &Vec<char>, i: usize) -> (r: usize)
    requires
        i <= s@.len(),
    ensures
        r as int == skip_spaces(s@, i as int),
        i <= r <= s@.len(),
{
    let mut j = i;
    while j < s.len() && is_space_char(s[j])
        invariant
            i <= j <= s@.len(),
            skip_spaces(s@, j as int) == skip_spaces(s@, i as int),
        decreases s@.len() - j,
    {
        j = j + 1;
    }
    j
}

fn word_end_at(s: &Vec<char>, i: usize) -> (r: usize)
    requires
        i <= s@.len(),
    ensures
        r as int == word_end(s@, i as int),
        i <= r <= s@.len(),
{
    let mut j = i;
    while j < s.len() && !is_white_char(s[j])
        invariant
            i <= j <= s@.len(),
            word_end(s@, j as int) == word_end(s@, i as int),
        decreases s@.len() - j,
    {
        j = j + 1;
    }
    j
}

fn starts_at_exec(s: &Vec<char>, i: usize, p: &Vec<char>) -> (r: bool)
    requires
        i <= s@.len(),
    ensures
        r == starts_at(s@, i as int, p@),
{
    if p.len() > s.len() - i {
        return false;
    }
    let mut k: usize = 0;
    while k < p.len()
        invariant
            i + p@.len() <= s@.len(),
            s@.len() == s.len(),
            k <= p@.len(),
            forall|m: int| 0 <= m < k ==> s@[i + m] == p@[m],
        decreases p@.len() - k,
    {
        if s[i + k] != p[k] {
            assert(s@.subrange(i as int, i + p@.len())[k as int] != p@[k as int]);
            return false;
        }
        k = k + 1;
    }
    assert(s@.subrange(i as int, i + p@.len()) =~= p@);
    true
}

fn text_between(s: &str, from: usize, to: usize) -> (r: String)
    requires
        from <= to <= s@.len(),
    ensures
        r@ == s@.subrange(from as int, to as int),
{
    s.substring_char(from, to).to_owned()
}

/// Reads a command out of a comment body addressed to `bot_name`.
///
/// A body that does not start (after separators) with `@<bot_name>` holds no
/// command; one that does but breaks the grammar after the mention is
/// malformed.
pub fn parse_command(text: &str, bot_name: &str) -> (r: Result<Option<Command>, Error>)
    ensures
        outcome(r) == spec_parse(text@, bot_name@),
        r is Err ==> r == Err::<Option<Command>, Error>(Error::MalformedCommand),
{
    let s = chars_of(text);
    let mut mention: Vec<char> = vec!['@'];
    let b = chars_of(bot_name);
    let mut k: usize = 0;
    while k < b.len()
        invariant
            k <= b@.len(),
            mention@ == seq!['@'] + b@.subrange(0, k as int),
        decreases b@.len() - k,
    {
        mention.push(b[k]);
        k = k + 1;
    }
    assert(b@.subrange(0, b@.len() as int) =~= b@);
    let publish: Vec<char> = vec!['/', 'p', 'u', 'b', 'l', 'i', 's', 'h'];
    assert(publish@ =~= publish_word());
    let i0 = skip_spaces_at(&s, 0);
    if !starts_at_exec(&s, i0, &mention) {
        return Ok(None);
    }
    assert(i0 + mention@.len() <= s@.len() && s@.len() == s.len());
    let i1 = i0 + mention.len();
    let i2 = skip_spaces_at(&s, i1);
    if i2 == i1 || !starts_at_exec(&s, i2, &publish) {
        return Err(Error::MalformedCommand);
    }
    assert(i2 + publish@.len() <= s@.len() && s@.len() == s.len());
    let i3 = i2 + publish.len();
    let i4 = skip_spaces_at(&s, i3);
    if i4 == i3 {
        return Err(Error::MalformedCommand);
    }
    let i5 = word_end_at(&s, i4);
    if i5 == i4 {
        return Err(Error::MalformedCommand);
    }
    let git = text_between(text, i4, i5);
    let i6 = skip_spaces_at(&s, i5);
    let i7 = word_end_at(&s, i6);
    let refname = if i6 > i5 && i7 > i6 {
        Some(text_between(text, i6, i7))
    } else {
        None
    };
    Ok(Some(Command::Publish { git, refname }))
}

impl Command {
    /// The command that `s` carries for the bot called `bot_name`.
    pub fn from_str(s: &str, bot_name: &str) -> (r: Result<Option<Command>, Error>)
        ensures
            outcome(r) == spec_parse(s@, bot_name@),
            r is Err ==> r == Err::<Option<Command>, Error>(Error::MalformedCommand),
    {
        parse_command(s, bot_name)
    }
}

} // verus!

verus! {

/// A body in which `@<bot>` occurs nowhere holds no command; in
/// particular, it is never malformed.
pub proof fn lemma_no_mention_no_command(s: Seq<char>, bot: Seq<char>)
    requires
        forall|i: int| 0 <= i <= s.len() ==> !starts_at(s, i, seq!['@'] + bot),
    ensures
        spec_parse(s, bot) is NoCommand,
{
    lemma_skip_spaces_bounds(s, 0);
}

proof fn lemma_skip_spaces_bounds(s: Seq<char>, i: int)
    requires
        0 <= i <= s.len(),
    ensures
        i <= skip_spaces(s, i) <= s.len(),
    decreases s.len() - i,
{
    if i < s.len() && is_space(s[i]) {
        lemma_skip_spaces_bounds(s, i + 1);
    }
}

/// Over a run of separators `w` at `i`, followed by the end or by a
/// character that is no separator, skipping lands at the end of the run.
proof fn lemma_skip_run(s: Seq<char>, i: int, w: Seq<char>)
    requires
        0 <= i,
        i + w.len() <= s.len(),
        s.subrange(i, i + w.len()) == w,
        forall|k: int| 0 <= k < w.len() ==> is_space(#[trigger] w[k]),
        i + w.len() == s.len() || !is_space(s[i + w.len()]),
    ensures
        skip_spaces(s, i) == i + w.len(),
    decreases w.len(),
{
    if w.len() > 0 {
        assert(s[i] == s.subrange(i, i + w.len())[0]);
        assert(s.subrange(i + 1, i + w.len()) =~= w.subrange(1, w.len() as int));
        lemma_skip_run(s, i + 1, w.subrange(1, w.len() as int));
    }
}

/// Over a word `w` at `i` holding no white space, followed by the end or by
/// white space, the word ends where `w` does.
proof fn lemma_word_run(s: Seq<char>, i: int, w: Seq<char>)
    requires
        0 <= i,
        i + w.len() <= s.len(),
        s.subrange(i, i + w.len()) == w,
        forall|k: int| 0 <= k < w.len() ==> !is_white(#[trigger] w[k]),
        i + w.len() == s.len() || is_white(s[i + w.len()]),
    ensures
        word_end(s, i) == i + w.len(),
    decreases w.len(),
{
    if w.len() > 0 {
        assert(s[i] == s.subrange(i, i + w.len())[0]);
        assert(s.subrange(i + 1, i + w.len()) =~= w.subrange(1, w.len() as int));
        lemma_word_run(s, i + 1, w.subrange(1, w.len() as int));
    }
}

/// A word: not empty, with no white space in it.
pub open spec fn is_word(w: Seq<char>) -> bool {
    w.len() > 0 && forall|k: int| 0 <= k < w.len() ==> !is_white(#[trigger] w[k])
}

/// A run of separators.
pub open spec fn is_spaces(w: Seq<char>) -> bool {
    forall|k: int| 0 <= k < w.len() ==> is_space(#[trigger] w[k])
}

/// `@<bot>`, then `/publish`, the url and the ref, each after a run of
/// separators (the first run may be empty), followed by nothing or by white
/// space and anything at all, is read as a publish of `url` at `ref`; the
/// trailing text is ignored.
#[verifier::rlimit(60)]
pub proof fn lemma_publish_with_ref(
    w0: Seq<char>,
    bot: Seq<char>,
    w1: Seq<char>,
    w2: Seq<char>,
    url: Seq<char>,
    w3: Seq<char>,
    refname: Seq<char>,
    rest: Seq<char>,
)
    requires
        is_spaces(w0),
        is_spaces(w1) && w1.len() > 0,
        is_spaces(w2) && w2.len() > 0,
        is_spaces(w3) && w3.len() > 0,
        is_word(url),
        is_word(refname),
        rest.len() == 0 || is_white(rest[0]),
    ensures
        spec_parse(
            w0 + seq!['@'] + bot + w1 + publish_word() + w2 + url + w3 + refname + rest,
            bot,
        ) == (Parsed::Publish { git: url, refname: Some(refname) }),
{
    let m = seq!['@'] + bot;
    let s = w0 + m + w1 + publish_word() + w2 + url + w3 + refname + rest;
    assert(s =~= w0 + seq!['@'] + bot + w1 + publish_word() + w2 + url + w3 + refname + rest);
    let i0 = w0.len() as int;
    let i1 = i0 + m.len();
    let i2 = i1 + w1.len();
    let i3 = i2 + 8;
    let i4 = i3 + w2.len();
    let i5 = i4 + url.len();
    let i6 = i5 + w3.len();
    let i7 = i6 + refname.len();
    assert(s.subrange(0, i0) =~= w0);
    assert(s[i0] == '@');
    lemma_skip_run(s, 0, w0);
    assert(s.subrange(i0, i1) =~= m);
    assert(s.subrange(i1, i2) =~= w1);
    assert(s[i2] == '/');
    lemma_skip_run(s, i1, w1);
    assert(s.subrange(i2, i3) =~= publish_word());
    assert(s.subrange(i3, i4) =~= w2);
    assert(s[i4] == url[0]);
    lemma_skip_run(s, i3, w2);
    assert(s.subrange(i4, i5) =~= url);
    assert(s[i5] == w3[0]);
    lemma_word_run(s, i4, url);
    assert(s.subrange(i5, i6) =~= w3);
    assert(s[i6] == refname[0]);
    lemma_skip_run(s, i5, w3);
    assert(s.subrange(i6, i7) =~= refname);
    if rest.len() > 0 {
        assert(s[i7] == rest[0]);
    }
    lemma_word_run(s, i6, refname);
}

/// `@<bot>`, then `/publish` and the url, each after a run of separators
/// (the first run may be empty), followed by nothing but separators, is
/// read as a publish of `url` with no ref.
pub proof fn lemma_publish_without_ref(
    w0: Seq<char>,
    bot: Seq<char>,
    w1: Seq<char>,
    w2: Seq<char>,
    url: Seq<char>,
    tail: Seq<char>,
)
    requires
        is_spaces(w0),
        is_spaces(w1) && w1.len() > 0,
        is_spaces(w2) && w2.len() > 0,
        is_word(url),
        is_spaces(tail),
    ensures
        spec_parse(w0 + seq!['@'] + bot + w1 + publish_word() + w2 + url + tail, bot)
            == (Parsed::Publish { git: url, refname: None }),
{
    let m = seq!['@'] + bot;
    let s = w0 + m + w1 + publish_word() + w2 + url + tail;
    assert(s =~= w0 + seq!['@'] + bot + w1 + publish_word() + w2 + url + tail);
    let i0 = w0.len() as int;
    let i1 = i0 + m.len();
    let i2 = i1 + w1.len();
    let i3 = i2 + 8;
    let i4 = i3 + w2.len();
    let i5 = i4 + url.len();
    assert(s.subrange(0, i0) =~= w0);
    assert(s[i0] == '@');
    lemma_skip_run(s, 0, w0);
    assert(s.subrange(i0, i1) =~= m);
    assert(s.subrange(i1, i2) =~= w1);
    assert(s[i2] == '/');
    lemma_skip_run(s, i1, w1);
    assert(s.subrange(i2, i3) =~= publish_word());
    assert(s.subrange(i3, i4) =~= w2);
    assert(s[i4] == url[0]);
    lemma_skip_run(s, i3, w2);
    assert(s.subrange(i4, i5) =~= url);
    if tail.len() > 0 {
        assert(s[i5] == tail[0]);
    }
    lemma_word_run(s, i4, url);
    assert(s.subrange(i5, s.len() as int) =~= tail);
    lemma_skip_run(s, i5, tail);
    assert(word_end(s, s.len() as int) == s.len());
}

proof fn lemma_word_end_bounds(s: Seq<char>, i: int)
    requires
        0 <= i <= s.len(),
    ensures
        i <= word_end(s, i) <= s.len(),
    decreases s.len() - i,
{
    if i < s.len() && !is_white(s[i]) {
        lemma_word_end_bounds(s, i + 1);
    }
}

/// What must follow a mention for the comment to be a command: separators,
/// `/publish`, separators, and a character that is not white space.
pub open spec fn publish_follows(s: Seq<char>, i: int) -> bool {
    let i2 = skip_spaces(s, i);
    let i4 = skip_spaces(s, i2 + publish_word().len());
    &&& i2 > i
    &&& starts_at(s, i2, publish_word())
    &&& i4 > i2 + publish_word().len()
    &&& i4 < s.len()
    &&& !is_white(s[i4])
}

/// A body is malformed exactly when, after leading separators, it starts
/// with `@<bot>` and what follows is not separators, `/publish`, separators
/// and a character that is not white space; every other body parses.
pub proof fn lemma_malformed_exactly(s: Seq<char>, bot: Seq<char>)
    ensures
        (spec_parse(s, bot) is Malformed) <==> (starts_at(s, skip_spaces(s, 0), seq!['@'] + bot)
            && !publish_follows(s, skip_spaces(s, 0) + bot.len() + 1)),
{
    let m = seq!['@'] + bot;
    let i0 = skip_spaces(s, 0);
    if starts_at(s, i0, m) {
        let i1 = i0 + m.len();
        let i2 = skip_spaces(s, i1);
        let i3 = i2 + publish_word().len();
        let i4 = skip_spaces(s, i3);
        lemma_skip_spaces_bounds(s, i1);
        if starts_at(s, i2, publish_word()) {
            lemma_skip_spaces_bounds(s, i3);
            if i4 < s.len() {
                lemma_word_end_bounds(s, i4 + 1);
            }
        }
    }
}

} // verus!
