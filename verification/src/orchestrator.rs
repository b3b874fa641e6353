//! The run as a whole: one organization after the other, each through its
//! states, and one store that only a run without failure hands out.

use vstd::prelude::*;
use crate::aggregator::{
    Aggregate,
    ProfileOutcome,
    Warning,
    aggregate,
    all_succeeded,
    collected,
    first_failure_at,
};
use crate::credential_map::{Entry, distinct_keys, entries_map};
use crate::error::{PipelineError, ProfileFailure, message_of};
use crate::model::{Credential, Organization, Session};
use crate::store::{CredentialStore, merged_under};

verus! {

/// Where the processing of one organization stands.
#[derive(Debug, Clone, Copy, PartialEq, Eq, Structural)]
pub enum OrganizationState {
    Idle,
    Authenticating,
    SessionEstablished,
    Resolving,
    Aggregated,
    Merged,
    Failed,
}

/// Why a run failed.
#[derive(Debug)]
pub enum RunFailure {
    /// Nothing is configured, or an organization's session could not be
    /// established.
    Organization(PipelineError),
    /// A profile's pipeline failed.
    Profile(ProfileFailure),
}

/// The text of a run's failure: for a profile, the organization's name, a
/// slash, the profile's name, a colon and the cause's text.
pub open spec fn failure_text(f: RunFailure) -> Seq<char> {
    match f {
        RunFailure::Organization(e) => message_of(e),
        RunFailure::Profile(p) => p.organization@ + "/"@ + p.profile@ + ": "@ + message_of(
            p.cause,
        ),
    }
}

impl RunFailure {
    /// The text shown to the user, with the names involved and the cause.
    pub fn message(&self) -> (text: String)
        ensures
            text@ == failure_text(*self),
    {
        match self {
            RunFailure::Organization(e) => e.message(),
            RunFailure::Profile(p) => {
                let mut text = p.organization.clone();
                text.append("/");
                text.append(p.profile.as_str());
                text.append(": ");
                let cause = p.cause.message();
                text.append(cause.as_str());
                text
            },
        }
    }
}

/// What the caller reports about an organization.
#[derive(Debug)]
pub enum OrganizationEvent {
    /// The organization's turn has come.
    Start,
    /// The session, or why it could not be established.
    Established(Result<Session, PipelineError>),
    /// The pipelines of the selected profiles have been started.
    Dispatched,
    /// The pipelines have ended, with these outcomes.
    Resolved(Vec<ProfileOutcome>),
    /// The organization's result is in the store.
    Stored,
}

/// What is to be done for an organization.
#[derive(Debug)]
pub enum OrganizationAction {
    /// Establish the session: obtain the secret, log in, open the session.
    Establish,
    /// Run the pipelines of the selected profiles with this session.
    Dispatch { session: Session },
    /// Merge this result into the store.
    Merge(Aggregate),
    /// Give the run up with this failure.
    Fail(RunFailure),
    /// Nothing: the event only moved the state on, or did not belong to it.
    Nothing,
}

/// What a failed login means: an authentication failure that names the
/// organization.
pub fn accept_login(organization: &Organization, answer: Result<String, String>) -> (r: Result<
    String,
    PipelineError,
>)
    ensures
        r == match answer {
            Ok(token) => Ok::<String, PipelineError>(token),
            Err(cause) => Err::<String, PipelineError>(
                PipelineError::Authentication { organization: organization.name, cause },
            ),
        },
{
    match answer {
        Ok(token) => Ok(token),
        Err(cause) => Err(
            PipelineError::Authentication { organization: organization.name.clone(), cause },
        ),
    }
}

/// Binds the session of an organization from its token and the answer to
/// the exchange of the token for a session id; a failed exchange names the
/// organization.
pub fn accept_session(
    organization: &Organization,
    token: String,
    answer: Result<String, String>,
) -> (r: Result<Session, PipelineError>)
    ensures
        r == match answer {
            Ok(id) => Ok::<Session, PipelineError>(Session { token, id }),
            Err(cause) => Err::<Session, PipelineError>(
                PipelineError::SessionExchange { organization: organization.name, cause },
            ),
        },
{
    match answer {
        Ok(id) => Ok(Session { token, id }),
        Err(cause) => Err(
            PipelineError::SessionExchange { organization: organization.name.clone(), cause },
        ),
    }
}

/// Whether a state and an action are what follows from a state and an event.
pub open spec fn follows(
    state: OrganizationState,
    event: OrganizationEvent,
    next: OrganizationState,
    action: OrganizationAction,
) -> bool {
    match (state, event) {
        (OrganizationState::Idle, OrganizationEvent::Start) => next
            == OrganizationState::Authenticating && action is Establish,
        (OrganizationState::Authenticating, OrganizationEvent::Established(Ok(session))) => next
            == OrganizationState::SessionEstablished && action == (OrganizationAction::Dispatch {
            session,
        }),
        (OrganizationState::Authenticating, OrganizationEvent::Established(Err(e))) => next
            == OrganizationState::Failed && action == OrganizationAction::Fail(
            RunFailure::Organization(e),
        ),
        (OrganizationState::SessionEstablished, OrganizationEvent::Dispatched) => next
            == OrganizationState::Resolving && action is Nothing,
        (OrganizationState::Resolving, OrganizationEvent::Resolved(outcomes)) => if all_succeeded(
            outcomes@,
        ) {
            &&& next == OrganizationState::Aggregated
            &&& action is Merge
            &&& action->Merge_0.credentials.wf()
            &&& action->Merge_0.credentials@ == collected(outcomes@)
            &&& action->Merge_0.warning == if outcomes@.len() == 0 {
                Some(Warning::NoProfilesSelected)
            } else {
                None::<Warning>
            }
        } else {
            &&& next == OrganizationState::Failed
            &&& exists|i: int|
                first_failure_at(outcomes@, i) && action == OrganizationAction::Fail(
                    RunFailure::Profile((#[trigger] outcomes@[i]).result->Err_0),
                )
        },
        (OrganizationState::Aggregated, OrganizationEvent::Stored) => next
            == OrganizationState::Merged && action is Nothing,
        _ => next == state && action is Nothing,
    }
}

/// Takes one event of an organization and says what follows: the next
/// state and what is to be done. A failure anywhere leads to `Failed`; an
/// event that does not belong to the state changes nothing.
pub fn advance(state: OrganizationState, event: OrganizationEvent) -> (r: (
    OrganizationState,
    OrganizationAction,
))
    ensures
        follows(state, event, r.0, r.1),
{
    match state {
        OrganizationState::Idle => match event {
            OrganizationEvent::Start => (
                OrganizationState::Authenticating,
                OrganizationAction::Establish,
            ),
            _ => (state, OrganizationAction::Nothing),
        },
        OrganizationState::Authenticating => match event {
            OrganizationEvent::Established(Ok(session)) => (
                OrganizationState::SessionEstablished,
                OrganizationAction::Dispatch { session },
            ),
            OrganizationEvent::Established(Err(e)) => (
                OrganizationState::Failed,
                OrganizationAction::Fail(RunFailure::Organization(e)),
            ),
            _ => (state, OrganizationAction::Nothing),
        },
        OrganizationState::SessionEstablished => match event {
            OrganizationEvent::Dispatched => (
                OrganizationState::Resolving,
                OrganizationAction::Nothing,
            ),
            _ => (state, OrganizationAction::Nothing),
        },
        OrganizationState::Resolving => match event {
            OrganizationEvent::Resolved(outcomes) => match aggregate(outcomes) {
                Ok(result) => (OrganizationState::Aggregated, OrganizationAction::Merge(result)),
                Err(failure) => (
                    OrganizationState::Failed,
                    OrganizationAction::Fail(RunFailure::Profile(failure)),
                ),
            },
            _ => (state, OrganizationAction::Nothing),
        },
        OrganizationState::Aggregated => match event {
            OrganizationEvent::Stored => (OrganizationState::Merged, OrganizationAction::Nothing),
            _ => (state, OrganizationAction::Nothing),
        },
        _ => (state, OrganizationAction::Nothing),
    }
}

/// One run: the store, and whether an organization has failed.
#[derive(Debug)]
pub struct Run {
    store: CredentialStore,
    failed: bool,
}

impl Run {
    /// The store's entries are sound.
    pub closed spec fn wf(&self) -> bool {
        self.store.wf()
    }

    /// What the store holds.
    pub closed spec fn store(&self) -> Map<Seq<char>, Credential> {
        self.store@
    }

    /// Whether an organization has failed.
    pub closed spec fn failed(&self) -> bool {
        self.failed
    }

    /// Begins a run over that many organizations, on the entries that the
    /// store had before. With no organization there is no run.
    pub fn begin(existing: &Vec<Entry>, organizations: usize) -> (r: Result<Run, PipelineError>)
        ensures
            match r {
                Ok(run) => organizations > 0 && run.wf() && !run.failed() && run.store()
                    == entries_map(existing@),
                Err(e) => organizations == 0 && e == PipelineError::Configuration,
            },
    {
        if organizations == 0 {
            Err(PipelineError::Configuration)
        } else {
            Ok(Run { store: CredentialStore::load(existing), failed: false })
        }
    }

    /// Whether an organization has failed.
    pub fn has_failed(&self) -> (b: bool)
        ensures
            b == self.failed(),
    {
        self.failed
    }

    /// The credential of a profile of an organization, if the store has one.
    pub fn credential(&self, organization: &str, profile: &str) -> (r: Option<&Credential>)
        requires
            self.wf(),
        ensures
            match r {
                Some(c) => self.store().contains_key(
                    crate::model::composite_key_of(organization@, profile@),
                ) && self.store()[crate::model::composite_key_of(organization@, profile@)] == *c,
                None => !self.store().contains_key(
                    crate::model::composite_key_of(organization@, profile@),
                ),
            },
    {
        self.store.get(organization, profile)
    }

    /// Merges the result of an organization into the store: each
    /// credential under the key of the organization and its profile's
    /// name, every other key as it was.
    pub fn merge(&mut self, organization: &Organization, result: &Aggregate)
        requires
            old(self).wf(),
            result.credentials.wf(),
        ensures
            final(self).wf(),
            final(self).failed() == old(self).failed(),
            merged_under(
                old(self).store(),
                final(self).store(),
                organization.name@,
                result.credentials@,
            ),
    {
        self.store.merge_organization(organization.name.as_str(), &result.credentials);
    }

    /// Ends an organization's turn with the outcomes of its profiles. If
    /// all succeeded, their credentials enter the store under the
    /// organization's keys, and a warning is handed out where there was no
    /// outcome at all. If one failed, the first failure is handed out, the
    /// store stays as it was, and the run counts as failed.
    pub fn complete_organization(
        &mut self,
        organization: &Organization,
        outcomes: Vec<ProfileOutcome>,
    ) -> (r: Result<Option<Warning>, ProfileFailure>)
        requires
            old(self).wf(),
        ensures
            final(self).wf(),
            all_succeeded(outcomes@) <==> r is Ok,
            match r {
                Ok(warning) => {
                    &&& merged_under(
                        old(self).store(),
                        final(self).store(),
                        organization.name@,
                        collected(outcomes@),
                    )
                    &&& final(self).failed() == old(self).failed()
                    &&& warning == if outcomes@.len() == 0 {
                        Some(Warning::NoProfilesSelected)
                    } else {
                        None::<Warning>
                    }
                },
                Err(f) => {
                    &&& final(self).store() == old(self).store()
                    &&& final(self).failed()
                    &&& exists|i: int|
                        first_failure_at(outcomes@, i) && (#[trigger] outcomes@[i]).result == Err::<
                            Credential,
                            ProfileFailure,
                        >(f)
                },
            },
    {
        match aggregate(outcomes) {
            Ok(result) => {
                self.merge(organization, &result);
                Ok(result.warning)
            },
            Err(failure) => {
                self.failed = true;
                Err(failure)
            },
        }
    }

    /// Marks the run as failed; the store stays as it is.
    pub fn fail(&mut self)
        ensures
            final(self).failed(),
            final(self).store() == old(self).store(),
            final(self).wf() == old(self).wf(),
    {
        self.failed = true;
    }

    /// Ends the run. A run without failure hands out the store's entries
    /// for the one write; a failed run hands out nothing, whatever earlier
    /// organizations had stored.
    pub fn finish(self) -> (r: Option<Vec<Entry>>)
        requires
            self.wf(),
        ensures
            match r {
                Some(list) => !self.failed() && distinct_keys(list@) && entries_map(list@)
                    == self.store(),
                None => self.failed(),
            },
    {
        if self.failed {
            None
        } else {
            Some(self.store.snapshot())
        }
    }
}

/// The exit code of a run: zero where nothing failed, one otherwise.
pub fn exit_code(result: &Result<(), RunFailure>) -> (code: i32)
    ensures
        code == if result is Ok {
            0i32
        } else {
            1i32
        },
{
    match result {
        Ok(_) => 0,
        Err(_) => 1,
    }
}

} // verus!
