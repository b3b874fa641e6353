//! The pipeline of one profile: list the links, retrieve the assertion,
//! exchange it for credentials. The caller does the outside work; each
//! answer comes back as an event, and `step` says what to do next.

use vstd::prelude::*;
use crate::error::{PipelineError, ProfileFailure};
use crate::model::{ApplicationLink, Assertion, Credential, Organization, Profile, RoleOption};
use crate::resolver::{application_choice, choose_application, choose_role, role_choice};

verus! {

/// Where the pipeline of one profile stands.
#[derive(Debug, Clone, Copy, PartialEq, Eq, Structural)]
pub enum PipelineState {
    Idle,
    AwaitingLinks,
    AwaitingAssertion,
    AwaitingCredential,
    Succeeded,
    Failed,
}

/// What the caller reports to the pipeline.
#[derive(Debug)]
pub enum PipelineEvent {
    /// The pipeline is to begin.
    Start,
    /// The listing of application links, or why it failed.
    Links(Result<Vec<ApplicationLink>, String>),
    /// The assertion of the chosen link, or why it could not be had.
    Assertion(Result<Assertion, String>),
    /// The answer of the credential exchange, which may hold no
    /// credentials, or why the exchange failed.
    Exchange(Result<Option<Credential>, String>),
}

/// What the pipeline asks of the caller.
#[derive(Debug)]
pub enum PipelineAction {
    /// List the application links that the session can see.
    ListLinks,
    /// Retrieve the assertion behind this URL.
    FetchAssertion { link_url: String },
    /// Exchange the raw assertion for credentials of this role, once.
    AssumeRole { role: RoleOption, raw_assertion: String },
    /// The profile's credentials: the pipeline has ended well.
    Deliver(Credential),
    /// The profile's failure: the pipeline has ended.
    Abort(ProfileFailure),
    /// The event does not belong to the state: nothing is to be done.
    Nothing,
}

/// What the answer of the credential exchange means for a profile.
pub open spec fn exchange_result(profile: Profile, answer: Result<Option<Credential>, String>)
    -> Result<Credential, PipelineError> {
    match answer {
        Err(cause) => Err(PipelineError::RoleAssumption { profile: profile.name, cause }),
        Ok(None) => Err(PipelineError::CredentialMissing),
        Ok(Some(credential)) => Ok(credential),
    }
}

/// Reads the answer of the credential exchange. A failed exchange fails
/// naming the profile, with the cause; an answer without credentials fails
/// as such.
pub fn accept_exchange(profile: &Profile, answer: Result<Option<Credential>, String>) -> (r:
    Result<Credential, PipelineError>)
    ensures
        r == exchange_result(*profile, answer),
{
    match answer {
        Err(cause) => Err(PipelineError::RoleAssumption { profile: profile.name.clone(), cause }),
        Ok(None) => Err(PipelineError::CredentialMissing),
        Ok(Some(credential)) => Ok(credential),
    }
}

/// A failure with the names of the organization and the profile around it.
pub open spec fn in_context(organization: Organization, profile: Profile, cause: PipelineError)
    -> ProfileFailure {
    ProfileFailure { organization: organization.name, profile: profile.name, cause }
}

/// Puts the names of the organization and the profile around a failure.
pub fn contextualize(organization: &Organization, profile: &Profile, cause: PipelineError) -> (f:
    ProfileFailure)
    ensures
        f == in_context(*organization, *profile, cause),
{
    ProfileFailure {
        organization: organization.name.clone(),
        profile: profile.name.clone(),
        cause,
    }
}

/// The next state and the action that follow from a state and an event.
pub open spec fn next_step(
    organization: Organization,
    profile: Profile,
    state: PipelineState,
    event: PipelineEvent,
) -> (PipelineState, PipelineAction) {
    match (state, event) {
        (PipelineState::Idle, PipelineEvent::Start) => (
            PipelineState::AwaitingLinks,
            PipelineAction::ListLinks,
        ),
        (PipelineState::AwaitingLinks, PipelineEvent::Links(listing)) => match application_choice(
            organization,
            profile,
            listing,
        ) {
            Ok(link) => (
                PipelineState::AwaitingAssertion,
                PipelineAction::FetchAssertion { link_url: link.link_url },
            ),
            Err(cause) => (
                PipelineState::Failed,
                PipelineAction::Abort(in_context(organization, profile, cause)),
            ),
        },
        (PipelineState::AwaitingAssertion, PipelineEvent::Assertion(fetched)) => match role_choice(
            profile,
            fetched,
        ) {
            Ok((role, raw_assertion)) => (
                PipelineState::AwaitingCredential,
                PipelineAction::AssumeRole { role, raw_assertion },
            ),
            Err(cause) => (
                PipelineState::Failed,
                PipelineAction::Abort(in_context(organization, profile, cause)),
            ),
        },
        (PipelineState::AwaitingCredential, PipelineEvent::Exchange(answer)) =>
            match exchange_result(profile, answer) {
            Ok(credential) => (PipelineState::Succeeded, PipelineAction::Deliver(credential)),
            Err(cause) => (
                PipelineState::Failed,
                PipelineAction::Abort(in_context(organization, profile, cause)),
            ),
        },
        _ => (state, PipelineAction::Nothing),
    }
}

/// Takes one event and says what follows: the next state, and what the
/// caller is to do. An event that does not belong to the state changes
/// nothing.
pub fn step(
    organization: &Organization,
    profile: &Profile,
    state: PipelineState,
    event: PipelineEvent,
) -> (r: (PipelineState, PipelineAction))
    ensures
        r == next_step(*organization, *profile, state, event),
{
    match state {
        PipelineState::Idle => match event {
            PipelineEvent::Start => (PipelineState::AwaitingLinks, PipelineAction::ListLinks),
            _ => (state, PipelineAction::Nothing),
        },
        PipelineState::AwaitingLinks => match event {
            PipelineEvent::Links(listing) => match choose_application(
                organization,
                profile,
                listing,
            ) {
                Ok(link) => (
                    PipelineState::AwaitingAssertion,
                    PipelineAction::FetchAssertion { link_url: link.link_url },
                ),
                Err(cause) => (
                    PipelineState::Failed,
                    PipelineAction::Abort(contextualize(organization, profile, cause)),
                ),
            },
            _ => (state, PipelineAction::Nothing),
        },
        PipelineState::AwaitingAssertion => match event {
            PipelineEvent::Assertion(fetched) => match choose_role(profile, fetched) {
                Ok((role, raw_assertion)) => (
                    PipelineState::AwaitingCredential,
                    PipelineAction::AssumeRole { role, raw_assertion },
                ),
                Err(cause) => (
                    PipelineState::Failed,
                    PipelineAction::Abort(contextualize(organization, profile, cause)),
                ),
            },
            _ => (state, PipelineAction::Nothing),
        },
        PipelineState::AwaitingCredential => match event {
            PipelineEvent::Exchange(answer) => match accept_exchange(profile, answer) {
                Ok(credential) => (PipelineState::Succeeded, PipelineAction::Deliver(credential)),
                Err(cause) => (
                    PipelineState::Failed,
                    PipelineAction::Abort(contextualize(organization, profile, cause)),
                ),
            },
            _ => (state, PipelineAction::Nothing),
        },
        _ => (state, PipelineAction::Nothing),
    }
}

/// Where the assertion holds no role option of the requested name, the
/// pipeline ends in a failure that names the profile and the requested
/// role, and asks for no credential exchange.
pub proof fn lemma_no_exchange_without_role(
    organization: Organization,
    profile: Profile,
    assertion: Assertion,
)
    requires
        forall|j: int|
            0 <= j < assertion.roles@.len() ==> !crate::resolver::role_matches(
                #[trigger] assertion.roles@[j],
                profile,
            ),
    ensures
        next_step(
            organization,
            profile,
            PipelineState::AwaitingAssertion,
            PipelineEvent::Assertion(Ok(assertion)),
        ) == (
            PipelineState::Failed,
            PipelineAction::Abort(
                in_context(
                    organization,
                    profile,
                    PipelineError::RoleNotFound { role: profile.role, profile: profile.name },
                ),
            ),
        ),
        forall|state: PipelineState, event: PipelineEvent|
            (#[trigger] next_step(organization, profile, state, event)).1 is AssumeRole ==> state
                == PipelineState::AwaitingAssertion && event is Assertion,
{
    crate::resolver::lemma_missing_role_is_reported(profile, assertion);
}

} // verus!
