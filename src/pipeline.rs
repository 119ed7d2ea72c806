use vstd::prelude::*;

use crate::controller::{is_listing_text, render_readme_package_list};
use crate::database::{has_coordinate, Database, PackageModel, User};
use crate::error::{message, Error};
use crate::manifest::Manifest;
use crate::publish::{check_publish_permission, commit_publish, first_foreign, record_of};
use crate::report::{rank, same_name, PublishState, PublishStep};
use crate::store::Location;
use crate::version::version_text;

verus! {

/// The outside work a publish attempt asks for next.
#[derive(Debug)]
pub enum PipelineAction {
    /// Clone the source into a fresh directory and check out the ref.
    Pull { url: String, refname: Option<String> },
    /// Run the artifact builder on the pulled tree.
    Build,
    /// Upload the built artifact into the store.
    Upload,
    /// Add the package's entry to the catalog index.
    UpdateIndex,
    /// Write the readme with this listing.
    UpdateReadme { listing: String },
    /// Nothing more: the attempt is over.
    Finished,
}

/// What the outside work answered; an error is its message.
#[derive(Debug)]
pub enum PipelineEvent {
    Pulled(Result<(), String>),
    Built(Result<Manifest, String>),
    Uploaded(Result<Location, String>),
    Indexed(Result<(), String>),
    ReadmeUpdated(Result<(), String>),
}

/// One publish attempt, from the request to its end.
#[derive(Debug)]
pub struct Pipeline {
    pub state: PublishState,
    pub refname: Option<String>,
    pub user: User,
    pub manifest: Option<Manifest>,
    pub location: Option<Location>,
    /// Whether the ledger holds the new record (the readme comes next).
    pub recorded: bool,
}

/// The message of an optional outside error.
pub open spec fn err_view(e: Option<String>) -> Option<Seq<char>> {
    match e {
        Some(s) => Some(s@),
        None => None,
    }
}

/// The message with which a built package is refused: the namespace's
/// owner where another user holds a record of its group, else the
/// coordinate that is already published.
pub open spec fn refusal_text(
    ps: Seq<PackageModel>,
    users: Map<i64, String>,
    m: Manifest,
    user_id: i64,
) -> Seq<char> {
    let f = first_foreign(ps, m.name.group@, user_id, 0);
    if f < ps.len() {
        "Namespace `"@ + m.name.group@ + "` has been taken by @"@ + users[ps[f].user_id]@
    } else {
        "Package `"@ + m.name.text@ + seq![' '] + version_text(m.version@) + "` has been published"@
    }
}

/// An attempt that an outside error ended: the attempt is over at the step
/// where it was, with that error's message.
pub open spec fn stopped(before: Pipeline, after: Pipeline, r: PipelineAction, e: String) -> bool {
    &&& r is Finished
    &&& after.state.step == before.state.step
    &&& after.state.error == Some(e)
}

impl Pipeline {
    pub open spec fn wf(&self) -> bool {
        &&& self.state.wf()
        &&& rank(self.state.step) >= rank(PublishStep::Upload) ==> self.manifest is Some
        &&& rank(self.state.step) >= rank(PublishStep::UpdateIndex) ==> self.location is Some
        &&& self.recorded ==> self.state.step == PublishStep::UpdateIndex
        &&& self.manifest is Some ==> same_name(
            self.state.name,
            Some((self.manifest->0.name, self.manifest->0.version)),
        )
    }

    /// Whether the attempt is over.
    pub open spec fn is_over(&self) -> bool {
        self.state.error is Some || self.state.step == PublishStep::Done
    }

    /// A request to publish `url` at `refname` on behalf of `user`, waiting
    /// for the workspace.
    pub fn new(url: String, refname: Option<String>, user: User) -> (r: Pipeline)
        ensures
            r.wf(),
            r.state.step == PublishStep::Block,
            r.state.remote_url == url,
            r.state.error is None,
            r.refname == refname,
            r.user == user,
            !r.recorded,
    {
        Pipeline {
            state: PublishState::new(url),
            refname,
            user,
            manifest: None,
            location: None,
            recorded: false,
        }
    }

    /// The workspace is held: pulling starts.
    pub fn start(&mut self) -> (r: PipelineAction)
        requires
            old(self).wf(),
            old(self).state.step == PublishStep::Block,
            old(self).state.error is None,
        ensures
            final(self).wf(),
            final(self).state.step == PublishStep::Pull,
            final(self).state.error is None,
            r matches PipelineAction::Pull { url, refname } && url == old(self).state.remote_url
                && refname == old(self).refname,
    {
        self.state.advance(PublishStep::Pull);
        PipelineAction::Pull { url: self.state.remote_url.clone(), refname: clone_ref(&self.refname) }
    }

    fn stop(&mut self, error: String) -> (r: PipelineAction)
        requires
            old(self).wf(),
        ensures
            final(self).wf(),
            final(self).state.error == Some(error),
            final(self).state.step == old(self).state.step,
            final(self).state.remote_url == old(self).state.remote_url,
            final(self).state.name == old(self).state.name,
            final(self).manifest == old(self).manifest,
            final(self).location == old(self).location,
            final(self).recorded == old(self).recorded,
            r is Finished,
    {
        self.state.fail(error);
        PipelineAction::Finished
    }

    /// Takes in the answer to the last action and says what comes next.
    /// The permission check runs once the package is built and before
    /// anything is uploaded; the ledger gets the record only once the index
    /// holds the entry; any error ends the attempt with its message. An
    /// answer that does not fit the pending action changes nothing.
    pub fn on_event(&mut self, db: &mut Database, event: PipelineEvent) -> (r: PipelineAction)
        requires
            old(self).wf(),
            old(db).wf(),
            old(db).owners_known(),
            !old(self).is_over(),
        ensures
            final(self).wf(),
            final(db).wf(),
            final(db).owners_known(),
            final(self).state.remote_url == old(self).state.remote_url,
            rank(old(self).state.step) <= rank(final(self).state.step),
            !(old(self).state.step == PublishStep::UpdateIndex && !old(self).recorded
                && event is Indexed && event->Indexed_0 is Ok) ==> final(db).records() == old(db).records()
                && final(db).users@ == old(db).users@,
            final(db).comments@ == old(db).comments@,
            match (old(self).state.step, event) {
                (PublishStep::Pull, PipelineEvent::Pulled(Ok(()))) => final(self).state.step
                    == PublishStep::Verify && r is Build,
                (PublishStep::Verify, PipelineEvent::Built(Ok(m))) => {
                    let ps = old(db).records();
                    let f = first_foreign(ps, m.name.group@, old(self).user.id, 0);
                    if f < ps.len() || has_coordinate(
                        ps,
                        m.name.group@,
                        m.name.name@,
                        m.version@,
                    ) {
                        &&& r is Finished
                        &&& final(self).state.step == PublishStep::Verify
                        &&& err_view(final(self).state.error) == Some(
                            refusal_text(ps, old(db).users@, m, old(self).user.id),
                        )
                    } else {
                        r is Upload && final(self).state.step == PublishStep::Upload
                            && final(self).manifest == Some(m)
                    }
                },
                (PublishStep::Upload, PipelineEvent::Uploaded(Ok(l))) => final(self).state.step
                    == PublishStep::UpdateIndex && final(self).location == Some(l)
                    && r is UpdateIndex,
                (PublishStep::UpdateIndex, PipelineEvent::Indexed(Ok(()))) => !old(self).recorded
                    ==> {
                    let m = old(self).manifest->0;
                    if has_coordinate(old(db).records(), m.name.group@, m.name.name@, m.version@) {
                        r is Finished && err_view(final(self).state.error) == Some(
                            message(Error::DuplicatePackage),
                        )
                    } else {
                        &&& final(db).records() == old(db).records().push(
                            record_of(m, old(self).user.id),
                        )
                        &&& final(self).recorded
                        &&& r matches PipelineAction::UpdateReadme { listing }
                            && is_listing_text(final(db).records(), final(db).users@, listing@)
                    }
                },
                (PublishStep::UpdateIndex, PipelineEvent::ReadmeUpdated(Ok(()))) => old(self).recorded ==> final(self).state.step == PublishStep::Done && r is Finished
                    && final(self).state.error is None,
                (_, PipelineEvent::Pulled(Err(e))) => old(self).state.step == PublishStep::Pull
                    ==> stopped(*old(self), *final(self), r, e),
                (_, PipelineEvent::Built(Err(e))) => old(self).state.step == PublishStep::Verify
                    ==> stopped(*old(self), *final(self), r, e),
                (_, PipelineEvent::Uploaded(Err(e))) => old(self).state.step == PublishStep::Upload
                    ==> stopped(*old(self), *final(self), r, e),
                (_, PipelineEvent::Indexed(Err(e))) => (old(self).state.step
                    == PublishStep::UpdateIndex && !old(self).recorded) ==> stopped(*old(self), *final(self), r, e),
                (_, PipelineEvent::ReadmeUpdated(Err(e))) => (old(self).state.step
                    == PublishStep::UpdateIndex && old(self).recorded) ==> stopped(*old(self), *final(self), r, e),
                _ => r is Finished && final(self).state.error is None && final(self).state.step
                    == old(self).state.step,
            },
    {
        let step = self.state.step;
        match event {
            PipelineEvent::Pulled(res) => {
                if step != PublishStep::Pull {
                    return PipelineAction::Finished;
                }
                match res {
                    Ok(()) => {
                        self.state.advance(PublishStep::Verify);
                        PipelineAction::Build
                    },
                    Err(e) => self.stop(e),
                }
            },
            PipelineEvent::Built(res) => {
                if step != PublishStep::Verify {
                    return PipelineAction::Finished;
                }
                match res {
                    Ok(m) => match check_publish_permission(db, &m, &self.user) {
                        Err(e) => self.stop(e.to_string()),
                        Ok(()) => {
                            self.state.set_name(m.name.clone(), m.version.clone());
                            self.manifest = Some(m);
                            self.state.advance(PublishStep::Upload);
                            PipelineAction::Upload
                        },
                    },
                    Err(e) => self.stop(e),
                }
            },
            PipelineEvent::Uploaded(res) => {
                if step != PublishStep::Upload {
                    return PipelineAction::Finished;
                }
                match res {
                    Ok(l) => {
                        self.location = Some(l);
                        self.state.advance(PublishStep::UpdateIndex);
                        PipelineAction::UpdateIndex
                    },
                    Err(e) => self.stop(e),
                }
            },
            PipelineEvent::Indexed(res) => {
                if step != PublishStep::UpdateIndex || self.recorded {
                    return PipelineAction::Finished;
                }
                match res {
                    Ok(()) => {
                        let outcome = match &self.manifest {
                            Some(m) => commit_publish(db, m, &self.user),
                            None => Ok(()),
                        };
                        match outcome {
                            Err(e) => self.stop(e.to_string()),
                            Ok(()) => {
                                self.recorded = true;
                                PipelineAction::UpdateReadme {
                                    listing: render_readme_package_list(db),
                                }
                            },
                        }
                    },
                    Err(e) => self.stop(e),
                }
            },
            PipelineEvent::ReadmeUpdated(res) => {
                if step != PublishStep::UpdateIndex || !self.recorded {
                    return PipelineAction::Finished;
                }
                match res {
                    Ok(()) => {
                        self.recorded = false;
                        self.state.advance(PublishStep::Done);
                        PipelineAction::Finished
                    },
                    Err(e) => self.stop(e),
                }
            },
        }
    }
}

fn clone_ref(o: &Option<String>) -> (r: Option<String>)
    ensures
        r == *o,
{
    match o {
        Some(s) => Some(s.clone()),
        None => None,
    }
}

} // verus!
