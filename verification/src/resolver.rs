//! From a profile and what the identity provider answered to the application
//! link and the role that the profile stands for.

use vstd::prelude::*;
use crate::error::PipelineError;
use crate::model::{ApplicationLink, Assertion, Organization, Profile, RoleOption};

verus! {

/// The application type of the links that federate into the cloud provider.
pub const FEDERATION_APP_TYPE: &'static str = "amazon_aws";

/// Whether position `i` holds the first slash of a role identifier.
pub open spec fn first_slash_at(arn: Seq<char>, i: int) -> bool {
    &&& 0 <= i < arn.len()
    &&& arn[i] == '/'
    &&& forall|j: int| 0 <= j < i ==> arn[j] != '/'
}

/// The name of a role: what follows the first slash of its identifier. An
/// identifier without a slash has no name.
pub open spec fn role_name_of(arn: Seq<char>) -> Option<Seq<char>> {
    if exists|i: int| first_slash_at(arn, i) {
        let i = choose|i: int| first_slash_at(arn, i);
        Some(arn.subrange(i + 1, arn.len() as int))
    } else {
        None
    }
}

impl RoleOption {
    /// The role's name, where the identifier has one.
    pub fn role_name(&self) -> (name: Option<String>)
        ensures
            match name {
                Some(n) => role_name_of(self.role_arn@) == Some(n@),
                None => role_name_of(self.role_arn@) is None,
            },
    {
        let arn = self.role_arn.as_str();
        let len = arn.unicode_len();
        let mut i: usize = 0;
        while i < len
            invariant
                len == arn@.len(),
                arn@ == self.role_arn@,
                i <= len,
                forall|j: int| 0 <= j < i ==> arn@[j] != '/',
            decreases len - i,
        {
            if arn.get_char(i) == '/' {
                proof {
                    assert(first_slash_at(arn@, i as int));
                    let c = choose|c: int| first_slash_at(arn@, c);
                    assert(c == i);
                }
                return Some(String::from_str(arn.substring_char(i + 1, len)));
            }
            i += 1;
        }
        None
    }
}

/// Whether a link is the one that a profile asks for: of the federation
/// type, and labelled with the profile's application name.
pub open spec fn link_matches(link: ApplicationLink, profile: Profile) -> bool {
    link.app_name@ == FEDERATION_APP_TYPE@ && link.label@ == profile.application_name@
}

/// Whether position `i` holds the first link that a profile asks for.
pub open spec fn first_link_at(links: Seq<ApplicationLink>, profile: Profile, i: int) -> bool {
    &&& 0 <= i < links.len()
    &&& link_matches(links[i], profile)
    &&& forall|j: int| 0 <= j < i ==> !link_matches(#[trigger] links[j], profile)
}

/// The first link that a profile asks for, if there is one.
pub open spec fn chosen_link(links: Seq<ApplicationLink>, profile: Profile) -> Option<
    ApplicationLink,
> {
    if exists|i: int| first_link_at(links, profile, i) {
        Some(links[choose|i: int| first_link_at(links, profile, i)])
    } else {
        None
    }
}

/// Whether a role option is the one that a profile asks for: its name is
/// exactly the profile's role. An option without a name matches nothing.
pub open spec fn role_matches(option: RoleOption, profile: Profile) -> bool {
    role_name_of(option.role_arn@) == Some(profile.role@)
}

/// Whether position `i` holds the first role option that a profile asks for.
pub open spec fn first_role_at(roles: Seq<RoleOption>, profile: Profile, i: int) -> bool {
    &&& 0 <= i < roles.len()
    &&& role_matches(roles[i], profile)
    &&& forall|j: int| 0 <= j < i ==> !role_matches(#[trigger] roles[j], profile)
}

/// The first role option that a profile asks for, if there is one.
pub open spec fn chosen_role(roles: Seq<RoleOption>, profile: Profile) -> Option<RoleOption> {
    if exists|i: int| first_role_at(roles, profile, i) {
        Some(roles[choose|i: int| first_role_at(roles, profile, i)])
    } else {
        None
    }
}

/// The place of the first link that a profile asks for.
pub fn find_application(links: &Vec<ApplicationLink>, profile: &Profile) -> (r: Option<usize>)
    ensures
        match r {
            Some(i) => first_link_at(links@, *profile, i as int) && chosen_link(links@, *profile)
                == Some(links@[i as int]),
            None => chosen_link(links@, *profile) is None && forall|j: int|
                0 <= j < links@.len() ==> !link_matches(#[trigger] links@[j], *profile),
        },
{
    let kind = String::from_str(FEDERATION_APP_TYPE);
    let mut i: usize = 0;
    while i < links.len()
        invariant
            i <= links@.len(),
            kind@ == FEDERATION_APP_TYPE@,
            forall|j: int| 0 <= j < i ==> !link_matches(#[trigger] links@[j], *profile),
        decreases links.len() - i,
    {
        if links[i].app_name == kind && links[i].label == profile.application_name {
            proof {
                assert(first_link_at(links@, *profile, i as int));
                let c = choose|c: int| first_link_at(links@, *profile, c);
                assert(c == i);
            }
            return Some(i);
        }
        i += 1;
    }
    None
}

/// The place of the first role option that a profile asks for.
pub fn find_role(roles: &Vec<RoleOption>, profile: &Profile) -> (r: Option<usize>)
    ensures
        match r {
            Some(i) => first_role_at(roles@, *profile, i as int) && chosen_role(roles@, *profile)
                == Some(roles@[i as int]),
            None => chosen_role(roles@, *profile) is None && forall|j: int|
                0 <= j < roles@.len() ==> !role_matches(#[trigger] roles@[j], *profile),
        },
{
    let mut i: usize = 0;
    while i < roles.len()
        invariant
            i <= roles@.len(),
            forall|j: int| 0 <= j < i ==> !role_matches(#[trigger] roles@[j], *profile),
        decreases roles.len() - i,
    {
        let matched = match roles[i].role_name() {
            Some(name) => name == profile.role,
            None => false,
        };
        if matched {
            proof {
                assert(first_role_at(roles@, *profile, i as int));
                let c = choose|c: int| first_role_at(roles@, *profile, c);
                assert(c == i);
            }
            return Some(i);
        }
        i += 1;
    }
    None
}

/// What the listing of application links means for a profile.
pub open spec fn application_choice(
    organization: Organization,
    profile: Profile,
    listing: Result<Vec<ApplicationLink>, String>,
) -> Result<ApplicationLink, PipelineError> {
    match listing {
        Err(cause) => Err(PipelineError::ApplicationListing { cause }),
        Ok(links) => match chosen_link(links@, profile) {
            Some(link) => Ok(link),
            None => Err(
                PipelineError::ApplicationNotFound {
                    organization: organization.name,
                    profile: profile.name,
                },
            ),
        },
    }
}

/// What the retrieval of an assertion means for a profile.
pub open spec fn role_choice(profile: Profile, fetched: Result<Assertion, String>) -> Result<
    (RoleOption, String),
    PipelineError,
> {
    match fetched {
        Err(cause) => Err(PipelineError::AssertionFetch { profile: profile.name, cause }),
        Ok(assertion) => match chosen_role(assertion.roles@, profile) {
            Some(role) => Ok((role, assertion.raw)),
            None => Err(PipelineError::RoleNotFound { role: profile.role, profile: profile.name }),
        },
    }
}

/// Picks the application link of a profile from the listing of the links
/// that the session can see. A failed listing is passed on with its cause;
/// a listing without the link fails naming the organization and the profile.
pub fn choose_application(
    organization: &Organization,
    profile: &Profile,
    listing: Result<Vec<ApplicationLink>, String>,
) -> (r: Result<ApplicationLink, PipelineError>)
    ensures
        r == application_choice(*organization, *profile, listing),
{
    match listing {
        Err(cause) => Err(PipelineError::ApplicationListing { cause }),
        Ok(links) => match find_application(&links, profile) {
            Some(i) => Ok(links[i].clone()),
            None => Err(
                PipelineError::ApplicationNotFound {
                    organization: organization.name.clone(),
                    profile: profile.name.clone(),
                },
            ),
        },
    }
}

/// Picks the role of a profile from the assertion retrieved for its link,
/// and hands it out with the raw assertion. A failed retrieval fails naming
/// the profile, with the cause; an assertion without the role fails naming
/// the requested role and the profile.
pub fn choose_role(profile: &Profile, fetched: Result<Assertion, String>) -> (r: Result<
    (RoleOption, String),
    PipelineError,
>)
    ensures
        r == role_choice(*profile, fetched),
{
    match fetched {
        Err(cause) => Err(PipelineError::AssertionFetch { profile: profile.name.clone(), cause }),
        Ok(assertion) => match find_role(&assertion.roles, profile) {
            Some(i) => Ok((assertion.roles[i].clone(), assertion.raw)),
            None => Err(
                PipelineError::RoleNotFound {
                    role: profile.role.clone(),
                    profile: profile.name.clone(),
                },
            ),
        },
    }
}

/// An assertion in which no role option has the requested name gives a
/// failure that names the requested role and the profile.
pub proof fn lemma_missing_role_is_reported(profile: Profile, assertion: Assertion)
    requires
        forall|j: int|
            0 <= j < assertion.roles@.len() ==> !role_matches(
                #[trigger] assertion.roles@[j],
                profile,
            ),
    ensures
        role_choice(profile, Ok(assertion)) == Err::<(RoleOption, String), PipelineError>(
            PipelineError::RoleNotFound { role: profile.role, profile: profile.name },
        ),
{
}

} // verus!
