use oktaws::model::{composite_key, Organization, Profile};
use oktaws::selector::{Selector, SELECT_EVERYTHING};

fn profile(name: &str, app: &str, role: &str) -> Profile {
    Profile { name: name.to_string(), application_name: app.to_string(), role: role.to_string() }
}

fn acme() -> Organization {
    Organization {
        name: "acme".to_string(),
        idp_url: "https://acme.example.com".to_string(),
        username: "jane".to_string(),
        profiles: vec![profile("dev", "aws-dev", "Admin")],
    }
}

#[test]
fn composite_key_joins_names_with_a_slash() {
    assert_eq!(composite_key("acme", "dev"), "acme/dev");
    assert_eq!(composite_key("", ""), "/");
    assert_eq!(composite_key("a/b", "c"), "a/b/c");
}

#[test]
fn organization_pattern_selects_its_profile() {
    let selector = Selector::new("acme/*").unwrap();
    let selected = selector.select_profiles(&acme());
    assert_eq!(selected.len(), 1);
    assert_eq!(selected[0].name, "dev");
    assert_eq!(selected[0].application_name, "aws-dev");
    assert_eq!(selected[0].role, "Admin");
}

#[test]
fn other_organization_pattern_selects_nothing() {
    let selector = Selector::new("other/*").unwrap();
    assert!(selector.select_profiles(&acme()).is_empty());
    assert!(!selector.matches("acme", "dev"));
}

#[test]
fn default_pattern_selects_everything() {
    let selector = Selector::new(SELECT_EVERYTHING).unwrap();
    let mut organization = acme();
    organization.profiles.push(profile("prod", "aws-prod", "ReadOnly"));
    let selected = selector.select_profiles(&organization);
    assert_eq!(selected.len(), 2);
    assert_eq!(selected[0].name, "dev");
    assert_eq!(selected[1].name, "prod");
}

#[test]
fn selection_keeps_configured_order_and_skips_others() {
    let selector = Selector::new("acme/p*").unwrap();
    let mut organization = acme();
    organization.profiles.push(profile("prod", "aws-prod", "ReadOnly"));
    organization.profiles.push(profile("qa", "aws-qa", "Admin"));
    organization.profiles.push(profile("perf", "aws-perf", "Admin"));
    let selected = selector.select_profiles(&organization);
    assert_eq!(selected.len(), 2);
    assert_eq!(selected[0].name, "prod");
    assert_eq!(selected[1].name, "perf");
}

#[test]
fn matches_is_decided_by_the_pattern() {
    let selector = Selector::new("ac?e/d[a-f]v").unwrap();
    assert!(selector.matches("acme", "dev"));
    assert!(selector.matches("acne", "dav"));
    assert!(!selector.matches("acme", "dzv"));
    assert!(!selector.matches("acme", "development"));
    let exact = Selector::new("acme/dev").unwrap();
    assert!(exact.matches("acme", "dev"));
    assert!(!exact.matches("acme", "prod"));
}

#[test]
fn invalid_pattern_is_rejected_with_its_text() {
    match Selector::new("acme/[") {
        Ok(_) => panic!("an unclosed bracket is no pattern"),
        Err(e) => assert_eq!(e.source, "acme/["),
    }
    assert!(Selector::new("a***").is_err());
}

#[test]
fn verbosity_sets_the_log_level() {
    let args = |verbosity: usize| oktaws::args::Args {
        profiles: glob::Pattern::new("*/*").unwrap(),
        force_auth: false,
        verbosity,
    };
    assert_eq!(args(0).log_level(), "warn");
    assert_eq!(args(1).log_level(), "info");
    assert_eq!(args(2).log_level(), "debug");
    assert_eq!(args(3).log_level(), "trace");
    assert_eq!(args(usize::MAX).log_level(), "trace");
}

#[test]
fn arguments_give_the_selector_of_their_pattern() {
    let args = oktaws::args::Args {
        profiles: glob::Pattern::new("acme/d*").unwrap(),
        force_auth: true,
        verbosity: 0,
    };
    let selector = args.selector();
    assert!(selector.matches("acme", "dev"));
    assert!(!selector.matches("acme", "prod"));
    assert!(!selector.matches("other", "dev"));
}
