use oktaws::error::PipelineError;
use oktaws::model::{ApplicationLink, Assertion, Credential, Organization, Profile, RoleOption};
use oktaws::pipeline::{accept_exchange, contextualize, step, PipelineAction, PipelineEvent, PipelineState};
use oktaws::resolver::{choose_application, choose_role, find_application, find_role, FEDERATION_APP_TYPE};

fn dev() -> Profile {
    Profile {
        name: "dev".to_string(),
        application_name: "aws-dev".to_string(),
        role: "Admin".to_string(),
    }
}

fn acme() -> Organization {
    Organization {
        name: "acme".to_string(),
        idp_url: "https://acme.example.com".to_string(),
        username: "jane".to_string(),
        profiles: vec![dev()],
    }
}

fn link(app_name: &str, label: &str, url: &str) -> ApplicationLink {
    ApplicationLink {
        app_name: app_name.to_string(),
        label: label.to_string(),
        link_url: url.to_string(),
    }
}

fn role(name: &str) -> RoleOption {
    RoleOption {
        role_arn: format!("arn:aws:iam::123456789012:role/{}", name),
        principal_arn: "arn:aws:iam::123456789012:saml-provider/idp".to_string(),
    }
}

fn credential(tag: &str) -> Credential {
    Credential {
        access_key_id: format!("AKIA{}", tag),
        secret_access_key: format!("secret-{}", tag),
        session_token: format!("token-{}", tag),
        expiration: "2030-01-01T00:00:00Z".to_string(),
    }
}

#[test]
fn role_name_is_what_follows_the_first_slash() {
    assert_eq!(role("Admin").role_name(), Some("Admin".to_string()));
    let nested = RoleOption { role_arn: "a/b/c".to_string(), principal_arn: String::new() };
    assert_eq!(nested.role_name(), Some("b/c".to_string()));
    let trailing = RoleOption { role_arn: "role/".to_string(), principal_arn: String::new() };
    assert_eq!(trailing.role_name(), Some(String::new()));
    let accented = RoleOption { role_arn: "r\u{f4}le/\u{c9}quipe".to_string(), principal_arn: String::new() };
    assert_eq!(accented.role_name(), Some("\u{c9}quipe".to_string()));
}

#[test]
fn role_identifier_without_slash_has_no_name() {
    let bare = RoleOption { role_arn: "Admin".to_string(), principal_arn: String::new() };
    assert_eq!(bare.role_name(), None);
    let empty = RoleOption { role_arn: String::new(), principal_arn: String::new() };
    assert_eq!(empty.role_name(), None);
}

#[test]
fn application_is_found_by_type_and_label() {
    let links = vec![
        link("salesforce", "aws-dev", "https://idp/0"),
        link(FEDERATION_APP_TYPE, "aws-prod", "https://idp/1"),
        link(FEDERATION_APP_TYPE, "aws-dev", "https://idp/2"),
        link(FEDERATION_APP_TYPE, "aws-dev", "https://idp/3"),
    ];
    assert_eq!(find_application(&links, &dev()), Some(2));
    let chosen = choose_application(&acme(), &dev(), Ok(links)).unwrap();
    assert_eq!(chosen.link_url, "https://idp/2");
    assert_eq!(FEDERATION_APP_TYPE, "amazon_aws");
}

#[test]
fn missing_application_names_organization_and_profile() {
    let links = vec![link("salesforce", "aws-dev", "https://idp/0")];
    assert_eq!(find_application(&links, &dev()), None);
    match choose_application(&acme(), &dev(), Ok(links)) {
        Err(PipelineError::ApplicationNotFound { organization, profile }) => {
            assert_eq!(organization, "acme");
            assert_eq!(profile, "dev");
        }
        other => panic!("unexpected: {:?}", other),
    }
    let e = choose_application(&acme(), &dev(), Ok(Vec::new())).unwrap_err();
    assert_eq!(e.message(), "Could not find Okta application for profile acme/dev");
}

#[test]
fn failed_listing_keeps_its_cause() {
    match choose_application(&acme(), &dev(), Err("timeout".to_string())) {
        Err(PipelineError::ApplicationListing { cause }) => assert_eq!(cause, "timeout"),
        other => panic!("unexpected: {:?}", other),
    }
}

#[test]
fn role_is_found_by_exact_name_first_wins() {
    let mut first = role("Admin");
    first.principal_arn = "first".to_string();
    let mut second = role("Admin");
    second.principal_arn = "second".to_string();
    let roles = vec![role("ReadOnly"), role("Administrator"), first, second];
    assert_eq!(find_role(&roles, &dev()), Some(2));
    let (chosen, raw) =
        choose_role(&dev(), Ok(Assertion { raw: "PHNhbWw+".to_string(), roles })).unwrap();
    assert_eq!(chosen.principal_arn, "first");
    assert_eq!(chosen.role_arn, "arn:aws:iam::123456789012:role/Admin");
    assert_eq!(raw, "PHNhbWw+");
}

#[test]
fn unparsable_role_identifier_matches_nothing() {
    let roles = vec![
        RoleOption { role_arn: "Admin".to_string(), principal_arn: String::new() },
        role("Admin"),
    ];
    assert_eq!(find_role(&roles, &dev()), Some(1));
}

#[test]
fn missing_role_fails_naming_role_and_profile() {
    let mut profile = dev();
    profile.role = "PowerUser".to_string();
    let assertion = Assertion { raw: "raw".to_string(), roles: vec![role("Admin"), role("ReadOnly")] };
    match choose_role(&profile, Ok(assertion)) {
        Err(PipelineError::RoleNotFound { role, profile }) => {
            assert_eq!(role, "PowerUser");
            assert_eq!(profile, "dev");
        }
        other => panic!("unexpected: {:?}", other),
    }
    let assertion = Assertion { raw: "raw".to_string(), roles: vec![role("Admin"), role("ReadOnly")] };
    let e = choose_role(&profile, Ok(assertion)).unwrap_err();
    assert_eq!(e.message(), "No matching role (PowerUser) found for profile dev");
}

#[test]
fn failed_assertion_fetch_names_profile_and_cause() {
    let e = choose_role(&dev(), Err("connection reset".to_string())).unwrap_err();
    assert_eq!(e.message(), "Error getting SAML response for profile dev (connection reset)");
    assert!(matches!(e, PipelineError::AssertionFetch { .. }));
}

#[test]
fn exchange_answers_are_read() {
    let ok = accept_exchange(&dev(), Ok(Some(credential("1")))).unwrap();
    assert_eq!(ok.access_key_id, "AKIA1");
    let missing = accept_exchange(&dev(), Ok(None)).unwrap_err();
    assert!(matches!(missing, PipelineError::CredentialMissing));
    assert_eq!(missing.message(), "Error fetching credentials from assumed AWS role");
    let failed = accept_exchange(&dev(), Err("denied".to_string())).unwrap_err();
    assert_eq!(failed.message(), "Error assuming role for profile dev (denied)");
    assert!(matches!(failed, PipelineError::RoleAssumption { .. }));
}

#[test]
fn pipeline_runs_from_start_to_credentials() {
    let (organization, profile) = (acme(), dev());
    let (state, action) = step(&organization, &profile, PipelineState::Idle, PipelineEvent::Start);
    assert_eq!(state, PipelineState::AwaitingLinks);
    assert!(matches!(action, PipelineAction::ListLinks));

    let links = vec![link("amazon_aws", "aws-dev", "https://idp/home/1")];
    let (state, action) = step(&organization, &profile, state, PipelineEvent::Links(Ok(links)));
    assert_eq!(state, PipelineState::AwaitingAssertion);
    match action {
        PipelineAction::FetchAssertion { link_url } => assert_eq!(link_url, "https://idp/home/1"),
        other => panic!("unexpected: {:?}", other),
    }

    let assertion = Assertion { raw: "raw".to_string(), roles: vec![role("ReadOnly"), role("Admin")] };
    let (state, action) = step(&organization, &profile, state, PipelineEvent::Assertion(Ok(assertion)));
    assert_eq!(state, PipelineState::AwaitingCredential);
    match action {
        PipelineAction::AssumeRole { role, raw_assertion } => {
            assert_eq!(role.role_arn, "arn:aws:iam::123456789012:role/Admin");
            assert_eq!(raw_assertion, "raw");
        }
        other => panic!("unexpected: {:?}", other),
    }

    let (state, action) =
        step(&organization, &profile, state, PipelineEvent::Exchange(Ok(Some(credential("1")))));
    assert_eq!(state, PipelineState::Succeeded);
    match action {
        PipelineAction::Deliver(c) => {
            assert_eq!(c.access_key_id, "AKIA1");
            assert_eq!(c.secret_access_key, "secret-1");
            assert_eq!(c.session_token, "token-1");
            assert_eq!(c.expiration, "2030-01-01T00:00:00Z");
        }
        other => panic!("unexpected: {:?}", other),
    }
}

#[test]
fn pipeline_without_matching_role_attempts_no_exchange() {
    let organization = acme();
    let mut profile = dev();
    profile.role = "PowerUser".to_string();
    let assertion = Assertion { raw: "raw".to_string(), roles: vec![role("Admin"), role("ReadOnly")] };
    let (state, action) = step(
        &organization,
        &profile,
        PipelineState::AwaitingAssertion,
        PipelineEvent::Assertion(Ok(assertion)),
    );
    assert_eq!(state, PipelineState::Failed);
    match action {
        PipelineAction::Abort(failure) => {
            assert_eq!(failure.organization, "acme");
            assert_eq!(failure.profile, "dev");
            match failure.cause {
                PipelineError::RoleNotFound { role, profile } => {
                    assert_eq!(role, "PowerUser");
                    assert_eq!(profile, "dev");
                }
                other => panic!("unexpected: {:?}", other),
            }
        }
        other => panic!("unexpected: {:?}", other),
    }
    let (state, action) =
        step(&organization, &profile, state, PipelineEvent::Exchange(Ok(Some(credential("1")))));
    assert_eq!(state, PipelineState::Failed);
    assert!(matches!(action, PipelineAction::Nothing));
}

#[test]
fn pipeline_failures_carry_their_context() {
    let (organization, profile) = (acme(), dev());
    let (state, action) = step(
        &organization,
        &profile,
        PipelineState::AwaitingLinks,
        PipelineEvent::Links(Ok(Vec::new())),
    );
    assert_eq!(state, PipelineState::Failed);
    match action {
        PipelineAction::Abort(f) => {
            assert_eq!(f.organization, "acme");
            assert_eq!(f.profile, "dev");
            assert!(matches!(f.cause, PipelineError::ApplicationNotFound { .. }));
        }
        other => panic!("unexpected: {:?}", other),
    }
    let (state, action) = step(
        &organization,
        &profile,
        PipelineState::AwaitingCredential,
        PipelineEvent::Exchange(Ok(None)),
    );
    assert_eq!(state, PipelineState::Failed);
    match action {
        PipelineAction::Abort(f) => assert!(matches!(f.cause, PipelineError::CredentialMissing)),
        other => panic!("unexpected: {:?}", other),
    }
    let f = contextualize(&organization, &profile, PipelineError::CredentialMissing);
    assert_eq!(f.organization, "acme");
    assert_eq!(f.profile, "dev");
}

#[test]
fn event_out_of_turn_changes_nothing() {
    let (organization, profile) = (acme(), dev());
    let (state, action) = step(
        &organization,
        &profile,
        PipelineState::Idle,
        PipelineEvent::Exchange(Ok(Some(credential("1")))),
    );
    assert_eq!(state, PipelineState::Idle);
    assert!(matches!(action, PipelineAction::Nothing));
    let (state, action) =
        step(&organization, &profile, PipelineState::Succeeded, PipelineEvent::Start);
    assert_eq!(state, PipelineState::Succeeded);
    assert!(matches!(action, PipelineAction::Nothing));
}

#[test]
fn error_messages_name_their_subjects() {
    assert_eq!(PipelineError::Configuration.message(), "No organizations found");
    let e = PipelineError::Authentication { organization: "acme".to_string(), cause: "401".to_string() };
    assert_eq!(e.message(), "Could not authenticate with acme (401)");
    let e = PipelineError::SessionExchange { organization: "acme".to_string(), cause: "403".to_string() };
    assert_eq!(e.message(), "Could not open a session with acme (403)");
    let e = PipelineError::ApplicationListing { cause: "500".to_string() };
    assert_eq!(e.message(), "Could not list applications (500)");
}
