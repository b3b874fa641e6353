//! What can go wrong, per profile and per organization.

use vstd::prelude::*;

verus! {

/// A failure of one step of the pipeline. Where a step wraps a lower-level
/// failure, `cause` holds that failure's text.
#[derive(Debug)]
pub enum PipelineError {
    /// No organization is configured.
    Configuration,
    /// The identity provider rejected the user's identifier and secret.
    Authentication { organization: String, cause: String },
    /// The session token could not be exchanged for a session id.
    SessionExchange { organization: String, cause: String },
    /// The application links of the session could not be listed.
    ApplicationListing { cause: String },
    /// No application link of the federation type carries the profile's label.
    ApplicationNotFound { organization: String, profile: String },
    /// The assertion could not be retrieved or read.
    AssertionFetch { profile: String, cause: String },
    /// No role option of the assertion has the requested name.
    RoleNotFound { role: String, profile: String },
    /// The cloud provider refused the exchange or could not be reached.
    RoleAssumption { profile: String, cause: String },
    /// The exchange answered without credentials.
    CredentialMissing,
}

impl Clone for PipelineError {
    fn clone(&self) -> (r: Self)
        ensures
            r == *self,
    {
        match self {
            PipelineError::Configuration => PipelineError::Configuration,
            PipelineError::Authentication { organization, cause } => PipelineError::Authentication {
                organization: organization.clone(),
                cause: cause.clone(),
            },
            PipelineError::SessionExchange { organization, cause } => {
                PipelineError::SessionExchange {
                    organization: organization.clone(),
                    cause: cause.clone(),
                }
            },
            PipelineError::ApplicationListing { cause } => PipelineError::ApplicationListing {
                cause: cause.clone(),
            },
            PipelineError::ApplicationNotFound { organization, profile } => {
                PipelineError::ApplicationNotFound {
                    organization: organization.clone(),
                    profile: profile.clone(),
                }
            },
            PipelineError::AssertionFetch { profile, cause } => PipelineError::AssertionFetch {
                profile: profile.clone(),
                cause: cause.clone(),
            },
            PipelineError::RoleNotFound { role, profile } => PipelineError::RoleNotFound {
                role: role.clone(),
                profile: profile.clone(),
            },
            PipelineError::RoleAssumption { profile, cause } => PipelineError::RoleAssumption {
                profile: profile.clone(),
                cause: cause.clone(),
            },
            PipelineError::CredentialMissing => PipelineError::CredentialMissing,
        }
    }
}

/// The text of an error, as a sequence of characters.
pub open spec fn message_of(e: PipelineError) -> Seq<char> {
    match e {
        PipelineError::Configuration => "No organizations found"@,
        PipelineError::Authentication { organization, cause } => "Could not authenticate with "@
            + organization@ + " ("@ + cause@ + ")"@,
        PipelineError::SessionExchange { organization, cause } =>
            "Could not open a session with "@ + organization@ + " ("@ + cause@ + ")"@,
        PipelineError::ApplicationListing { cause } => "Could not list applications ("@ + cause@
            + ")"@,
        PipelineError::ApplicationNotFound { organization, profile } =>
            "Could not find Okta application for profile "@ + organization@ + "/"@ + profile@,
        PipelineError::AssertionFetch { profile, cause } =>
            "Error getting SAML response for profile "@ + profile@ + " ("@ + cause@ + ")"@,
        PipelineError::RoleNotFound { role, profile } => "No matching role ("@ + role@
            + ") found for profile "@ + profile@,
        PipelineError::RoleAssumption { profile, cause } => "Error assuming role for profile "@
            + profile@ + " ("@ + cause@ + ")"@,
        PipelineError::CredentialMissing => "Error fetching credentials from assumed AWS role"@,
    }
}

impl PipelineError {
    /// The text shown to the user: the names involved and the underlying
    /// cause, where there is one.
    pub fn message(&self) -> (text: String)
        ensures
            text@ == message_of(*self),
    {
        match self {
            PipelineError::Configuration => String::from_str("No organizations found"),
            PipelineError::Authentication { organization, cause } => {
                let mut text = String::from_str("Could not authenticate with ");
                text.append(organization.as_str());
                text.append(" (");
                text.append(cause.as_str());
                text.append(")");
                text
            },
            PipelineError::SessionExchange { organization, cause } => {
                let mut text = String::from_str("Could not open a session with ");
                text.append(organization.as_str());
                text.append(" (");
                text.append(cause.as_str());
                text.append(")");
                text
            },
            PipelineError::ApplicationListing { cause } => {
                let mut text = String::from_str("Could not list applications (");
                text.append(cause.as_str());
                text.append(")");
                text
            },
            PipelineError::ApplicationNotFound { organization, profile } => {
                let mut text = String::from_str("Could not find Okta application for profile ");
                text.append(organization.as_str());
                text.append("/");
                text.append(profile.as_str());
                text
            },
            PipelineError::AssertionFetch { profile, cause } => {
                let mut text = String::from_str("Error getting SAML response for profile ");
                text.append(profile.as_str());
                text.append(" (");
                text.append(cause.as_str());
                text.append(")");
                text
            },
            PipelineError::RoleNotFound { role, profile } => {
                let mut text = String::from_str("No matching role (");
                text.append(role.as_str());
                text.append(") found for profile ");
                text.append(profile.as_str());
                text
            },
            PipelineError::RoleAssumption { profile, cause } => {
                let mut text = String::from_str("Error assuming role for profile ");
                text.append(profile.as_str());
                text.append(" (");
                text.append(cause.as_str());
                text.append(")");
                text
            },
            PipelineError::CredentialMissing => String::from_str(
                "Error fetching credentials from assumed AWS role",
            ),
        }
    }
}

/// The failure of one profile's pipeline: the organization and the profile
/// that it belongs to, and what went wrong.
#[derive(Debug)]
pub struct ProfileFailure {
    pub organization: String,
    pub profile: String,
    pub cause: PipelineError,
}

impl Clone for ProfileFailure {
    fn clone(&self) -> (r: Self)
        ensures
            r == *self,
    {
        ProfileFailure {
            organization: self.organization.clone(),
            profile: self.profile.clone(),
            cause: self.cause.clone(),
        }
    }
}

} // verus!
