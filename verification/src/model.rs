//! The immutable inputs and the artifacts that the pipeline passes along.

use vstd::prelude::*;

verus! {

/// One target resource within an organization.
#[derive(Debug)]
pub struct Profile {
    pub name: String,
    pub application_name: String,
    pub role: String,
}

impl Clone for Profile {
    fn clone(&self) -> (r: Self)
        ensures
            r == *self,
    {
        Profile {
            name: self.name.clone(),
            application_name: self.application_name.clone(),
            role: self.role.clone(),
        }
    }
}

/// One identity-provider tenant with the profiles configured for it.
#[derive(Debug)]
pub struct Organization {
    pub name: String,
    pub idp_url: String,
    pub username: String,
    pub profiles: Vec<Profile>,
}

/// The authentication context of one organization.
#[derive(Debug)]
pub struct Session {
    pub token: String,
    pub id: String,
}

/// A federation-enabled application that the session's user can open.
#[derive(Debug)]
pub struct ApplicationLink {
    pub app_name: String,
    pub label: String,
    pub link_url: String,
}

impl Clone for ApplicationLink {
    fn clone(&self) -> (r: Self)
        ensures
            r == *self,
    {
        ApplicationLink {
            app_name: self.app_name.clone(),
            label: self.label.clone(),
            link_url: self.link_url.clone(),
        }
    }
}

/// A candidate federated role carried by an assertion.
#[derive(Debug)]
pub struct RoleOption {
    pub role_arn: String,
    pub principal_arn: String,
}

impl Clone for RoleOption {
    fn clone(&self) -> (r: Self)
        ensures
            r == *self,
    {
        RoleOption { role_arn: self.role_arn.clone(), principal_arn: self.principal_arn.clone() }
    }
}

/// The federation artifact of one application link, with its role options
/// in the order in which the artifact lists them.
#[derive(Debug)]
pub struct Assertion {
    pub raw: String,
    pub roles: Vec<RoleOption>,
}

/// Temporary access credentials with their expiry.
#[derive(Debug)]
pub struct Credential {
    pub access_key_id: String,
    pub secret_access_key: String,
    pub session_token: String,
    pub expiration: String,
}

impl Clone for Credential {
    fn clone(&self) -> (r: Self)
        ensures
            r == *self,
    {
        Credential {
            access_key_id: self.access_key_id.clone(),
            secret_access_key: self.secret_access_key.clone(),
            session_token: self.session_token.clone(),
            expiration: self.expiration.clone(),
        }
    }
}

/// The key under which a profile's credential is stored: the organization's
/// name, a slash, the profile's name.
pub open spec fn composite_key_of(organization: Seq<char>, profile: Seq<char>) -> Seq<char> {
    organization + seq!['/'] + profile
}

/// Builds the store key of a profile.
pub fn composite_key(organization: &str, profile: &str) -> (key: String)
    ensures
        key@ == composite_key_of(organization@, profile@),
{
    let mut key = String::from_str(organization);
    key.append("/");
    key.append(profile);
    proof {
        reveal_strlit("/");
        assert("/"@ =~= seq!['/']);
    }
    key
}

} // verus!
