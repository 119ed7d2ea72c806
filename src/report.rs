use vstd::prelude::*;

use crate::github::Comment;
use crate::manifest::PackageName;
use crate::text::{clone_opt, push_str, string_from_chars};
use crate::version::{version_text, Version};

verus! {

/// The steps of a publish attempt, in the order they are taken.
#[derive(Debug, Clone, Copy, PartialEq, Eq, Structural)]
pub enum PublishStep {
    Block,
    Pull,
    Verify,
    Upload,
    UpdateIndex,
    Done,
}

/// The position of a step in the order.
pub open spec fn rank(s: PublishStep) -> nat {
    match s {
        PublishStep::Block => 0,
        PublishStep::Pull => 1,
        PublishStep::Verify => 2,
        PublishStep::Upload => 3,
        PublishStep::UpdateIndex => 4,
        PublishStep::Done => 5,
    }
}

impl PublishStep {
    pub fn rank(&self) -> (r: u8)
        ensures
            r == rank(*self),
    {
        match self {
            PublishStep::Block => 0,
            PublishStep::Pull => 1,
            PublishStep::Verify => 2,
            PublishStep::Upload => 3,
            PublishStep::UpdateIndex => 4,
            PublishStep::Done => 5,
        }
    }
}

/// The progress of one publish attempt.
#[derive(Debug)]
pub struct PublishState {
    pub step: PublishStep,
    pub remote_url: String,
    pub name: Option<(PackageName, Version)>,
    pub error: Option<String>,
}

/// Whether two optional package names and versions are equal.
pub open spec fn same_name(a: Option<(PackageName, Version)>, b: Option<(PackageName, Version)>) -> bool {
    match (a, b) {
        (Some((n1, v1)), Some((n2, v2))) => n1 == n2 && v1@ == v2@,
        (None, None) => true,
        _ => false,
    }
}

impl Clone for PublishState {
    fn clone(&self) -> (r: Self)
        ensures
            r.step == self.step,
            r.remote_url == self.remote_url,
            r.error == self.error,
            same_name(r.name, self.name),
    {
        let name = match &self.name {
            Some((n, v)) => Some((n.clone(), v.clone())),
            None => None,
        };
        PublishState {
            step: self.step,
            remote_url: self.remote_url.clone(),
            name,
            error: clone_opt(&self.error),
        }
    }
}

impl PublishState {
    /// A finished attempt names the package it published.
    pub open spec fn wf(&self) -> bool {
        self.step == PublishStep::Done ==> self.name is Some
    }

    /// An attempt that waits for the workspace.
    pub fn new(remote_url: String) -> (r: PublishState)
        ensures
            r.wf(),
            r.step == PublishStep::Block,
            r.remote_url == remote_url,
            r.name is None,
            r.error is None,
    {
        PublishState { step: PublishStep::Block, remote_url, name: None, error: None }
    }

    /// Moves on to a later step; steps never go back, and a failed or
    /// finished attempt does not move.
    pub fn advance(&mut self, step: PublishStep)
        requires
            old(self).wf(),
            old(self).error is None,
            rank(old(self).step) < rank(step),
            step == PublishStep::Done ==> old(self).name is Some,
        ensures
            final(self).wf(),
            final(self).step == step,
            final(self).remote_url == old(self).remote_url,
            final(self).name == old(self).name,
            final(self).error == old(self).error,
    {
        self.step = step;
    }

    /// Records the package that the attempt publishes.
    pub fn set_name(&mut self, name: PackageName, version: Version)
        requires
            old(self).wf(),
        ensures
            final(self).wf(),
            final(self).step == old(self).step,
            final(self).remote_url == old(self).remote_url,
            final(self).name == Some((name, version)),
            final(self).error == old(self).error,
    {
        self.name = Some((name, version));
    }

    /// Ends the attempt with `error`, at the step where it happened.
    pub fn fail(&mut self, error: String)
        requires
            old(self).wf(),
        ensures
            final(self).wf(),
            final(self).step == old(self).step,
            final(self).remote_url == old(self).remote_url,
            final(self).name == old(self).name,
            final(self).error == Some(error),
    {
        self.error = Some(error);
    }
}

pub open spec fn line_if(b: bool, line: Seq<char>) -> Seq<char> {
    if b {
        line
    } else {
        Seq::empty()
    }
}

/// The list of steps reached, then the error if there is one.
pub open spec fn body_text(step: PublishStep, error: Option<Seq<char>>) -> Seq<char> {
    let r = rank(step);
    let steps = if step == PublishStep::Block {
        "- 🎅 Blocking waiting for previous tasks\n"@
    } else {
        line_if(r >= 1, "- 🚢 Pulling repository\n"@) + line_if(r >= 2, "- 🏭 Verifying package\n"@)
            + line_if(r >= 3, "- 📦 Uploading package\n"@) + line_if(
            r >= 4,
            "- 📜 Updating index\n"@,
        ) + line_if(r >= 5, "- ✔️ Done\n"@)
    };
    match error {
        Some(e) => steps + "  - ❌ *"@ + e + "*\n\n"@,
        None => steps,
    }
}

/// The closing sentence of a publish report.
pub open spec fn msg_text(s: PublishState) -> Seq<char> {
    if s.error is Some {
        "Publish failed due to the reason above."@
    } else if s.step == PublishStep::Block {
        "Publish process will be started soon."@
    } else if s.step == PublishStep::Done {
        let (name, version) = s.name->0;
        "Package  `"@ + name.text@ + seq!['|'] + version_text(version@)
            + "` has been published. 🚀"@
    } else {
        "Publish process will finish in minutes."@
    }
}

fn push_if(v: &mut Vec<char>, b: bool, line: &str)
    ensures
        final(v)@ == old(v)@ + line_if(b, line@),
{
    if b {
        push_str(v, line);
    } else {
        assert(old(v)@ + line_if(b, line@) =~= old(v)@);
    }
}

/// A report written into the triggering comment.
#[derive(Debug)]
pub enum Report {
    CommandError,
    Publish(PublishState),
}

pub open spec fn title_text(r: Report) -> Seq<char> {
    match r {
        Report::CommandError => "Command Error"@,
        Report::Publish(_) => "Publish Package"@,
    }
}

pub open spec fn report_body(r: Report) -> Option<Seq<char>> {
    match r {
        Report::CommandError => None,
        Report::Publish(s) => Some(
            body_text(
                s.step,
                match s.error {
                    Some(e) => Some(e@),
                    None => None,
                },
            ),
        ),
    }
}

pub open spec fn report_msg(r: Report) -> Seq<char> {
    match r {
        Report::CommandError => "elba-bot was not able to understand your command."@,
        Report::Publish(s) => msg_text(s),
    }
}

/// The comment's new text: its own body, a rule, the title, the body
/// if any, and a line addressed to the author.
pub open spec fn report_text(r: Report, comment: Comment) -> Seq<char> {
    let head = comment.body@ + "\n\n- - - - - - - - - - -\n\n"@ + "#### *"@ + title_text(r)
        + "*\n\n"@;
    let body = match report_body(r) {
        Some(b) => b + "\n\n"@,
        None => Seq::empty(),
    };
    head + body + seq!['@'] + comment.user.name@ + " *"@ + report_msg(r) + "*\n"@
}

impl Report {
    pub open spec fn wf(&self) -> bool {
        match self {
            Report::CommandError => true,
            Report::Publish(s) => s.wf(),
        }
    }

    fn push_title(&self, v: &mut Vec<char>)
        ensures
            final(v)@ == old(v)@ + title_text(*self),
    {
        match self {
            Report::CommandError => push_str(v, "Command Error"),
            Report::Publish(_) => push_str(v, "Publish Package"),
        }
    }

    fn push_body(&self, v: &mut Vec<char>)
        ensures
            final(v)@ == old(v)@ + match report_body(*self) {
                Some(b) => b + "\n\n"@,
                None => Seq::empty(),
            },
    {
        match self {
            Report::CommandError => {
                assert(old(v)@ =~= old(v)@ + Seq::<char>::empty());
            },
            Report::Publish(s) => {
                let r = s.step.rank();
                if r == 0 {
                    push_str(v, "- 🎅 Blocking waiting for previous tasks\n");
                } else {
                    push_if(v, r >= 1, "- 🚢 Pulling repository\n");
                    push_if(v, r >= 2, "- 🏭 Verifying package\n");
                    push_if(v, r >= 3, "- 📦 Uploading package\n");
                    push_if(v, r >= 4, "- 📜 Updating index\n");
                    push_if(v, r >= 5, "- ✔️ Done\n");
                }
                if let Some(e) = &s.error {
                    push_str(v, "  - ❌ *");
                    push_str(v, e.as_str());
                    push_str(v, "*\n\n");
                }
                push_str(v, "\n\n");
                assert(final(v)@ =~= old(v)@ + match report_body(*self) {
                    Some(b) => b + "\n\n"@,
                    None => Seq::empty(),
                });
            },
        }
    }

    fn push_msg(&self, v: &mut Vec<char>)
        requires
            self.wf(),
        ensures
            final(v)@ == old(v)@ + report_msg(*self),
    {
        match self {
            Report::CommandError => push_str(v, "elba-bot was not able to understand your command."),
            Report::Publish(s) => {
                if s.error.is_some() {
                    push_str(v, "Publish failed due to the reason above.");
                } else if s.step.rank() == 0 {
                    push_str(v, "Publish process will be started soon.");
                } else if s.step.rank() == 5 {
                    let (name, version) = s.name.as_ref().unwrap();
                    push_str(v, "Package  `");
                    push_str(v, name.text.as_str());
                    v.push('|');
                    version.write_to(v);
                    push_str(v, "` has been published. 🚀");
                    assert(final(v)@ =~= old(v)@ + report_msg(*self));
                } else {
                    push_str(v, "Publish process will finish in minutes.");
                }
            },
        }
    }

    /// The text that replaces `comment`'s body.
    pub fn render(&self, comment: &Comment) -> (r: String)
        requires
            self.wf(),
        ensures
            r@ == report_text(*self, *comment),
    {
        let mut v: Vec<char> = Vec::new();
        push_str(&mut v, comment.body.as_str());
        push_str(&mut v, "\n\n- - - - - - - - - - -\n\n");
        push_str(&mut v, "#### *");
        self.push_title(&mut v);
        push_str(&mut v, "*\n\n");
        self.push_body(&mut v);
        v.push('@');
        push_str(&mut v, comment.user.name.as_str());
        push_str(&mut v, " *");
        self.push_msg(&mut v);
        push_str(&mut v, "*\n");
        assert(v@ =~= report_text(*self, *comment));
        string_from_chars(&v)
    }
}

} // verus!
