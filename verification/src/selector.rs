//! Which profiles a selection pattern picks.

use vstd::prelude::*;
use crate::model::{Organization, Profile, composite_key, composite_key_of};

verus! {

/// `glob::Pattern`, a compiled shell-style pattern. Nothing is claimed of
/// what is inside.
#[verifier::external_type_specification]
#[verifier::external_body]
pub struct ExPattern(glob::Pattern);

/// `glob::PatternError`, what `glob::Pattern::new` gives for a text that
/// is no pattern. Nothing is claimed of what is inside.
#[verifier::external_type_specification]
#[verifier::external_body]
pub struct ExPatternError(glob::PatternError);

/// What `glob::Pattern::new` makes of a pattern's text: the compiled pattern,
/// or nothing where the text is no valid pattern. The crate reads the path
/// separators of the platform that it is built for, so the name stands for
/// its behaviour on that platform.
pub uninterp spec fn glob_compile(source: Seq<char>) -> Option<glob::Pattern>;

/// Whether `glob::Pattern::matches` finds that a compiled pattern matches a
/// text, under the crate's default match options, on the platform that it
/// is built for.
pub uninterp spec fn glob_matches(pattern: glob::Pattern, text: Seq<char>) -> bool;

/// Calls `glob::Pattern::new`. The claim: the outcome depends on the text
/// alone, and is `Ok` with the compiled pattern exactly where the text is a
/// valid pattern.
#[verifier::external_body]
fn compile_pattern(source: &str) -> (r: Result<glob::Pattern, glob::PatternError>)
    ensures
        match r {
            Ok(p) => glob_compile(source@) == Some(p),
            Err(_) => glob_compile(source@) is None,
        },
{
    glob::Pattern::new(source)
}

/// Calls `glob::Pattern::matches`. The claim: the answer depends on the
/// compiled pattern and the text alone.
#[verifier::external_body]
fn pattern_matches(pattern: &glob::Pattern, text: &str) -> (b: bool)
    ensures
        b == glob_matches(*pattern, text@),
{
    pattern.matches(text)
}

/// The pattern that selects every profile of every organization.
pub const SELECT_EVERYTHING: &'static str = "*/*";

/// A selection pattern that is no valid shell-style pattern.
#[derive(Debug)]
pub struct InvalidPattern {
    pub source: String,
}

/// A compiled selection pattern.
pub struct Selector {
    pattern: glob::Pattern,
}

/// Whether a compiled pattern picks the profile of that name in the
/// organization of that name: whether it matches the profile's store key.
pub open spec fn selects(pattern: glob::Pattern, organization: Seq<char>, profile: Seq<char>) -> bool {
    glob_matches(pattern, composite_key_of(organization, profile))
}

/// The profiles that a compiled pattern picks, in their configured order.
pub open spec fn selected_profiles(
    pattern: glob::Pattern,
    organization: Seq<char>,
    profiles: Seq<Profile>,
) -> Seq<Profile>
    decreases profiles.len(),
{
    if profiles.len() == 0 {
        Seq::empty()
    } else {
        let before = selected_profiles(pattern, organization, profiles.drop_last());
        if selects(pattern, organization, profiles.last().name@) {
            before.push(profiles.last())
        } else {
            before
        }
    }
}

impl Selector {
    /// The compiled pattern.
    pub closed spec fn pattern(&self) -> glob::Pattern {
        self.pattern
    }

    /// The selector of a compiled pattern.
    pub fn from_pattern(pattern: glob::Pattern) -> (s: Selector)
        ensures
            s.pattern() == pattern,
    {
        Selector { pattern }
    }

    /// Compiles a selection pattern. Fails exactly where the text is no
    /// valid pattern, and then hands the text back.
    pub fn new(source: &str) -> (r: Result<Selector, InvalidPattern>)
        ensures
            match r {
                Ok(s) => glob_compile(source@) == Some(s.pattern()),
                Err(e) => glob_compile(source@) is None && e.source@ == source@,
            },
    {
        match compile_pattern(source) {
            Ok(pattern) => Ok(Selector { pattern }),
            Err(_) => Err(InvalidPattern { source: String::from_str(source) }),
        }
    }

    /// Whether the pattern picks the profile: whether it matches the
    /// organization's name, a slash and the profile's name.
    pub fn matches(&self, organization: &str, profile: &str) -> (b: bool)
        ensures
            b == selects(self.pattern(), organization@, profile@),
    {
        let key = composite_key(organization, profile);
        pattern_matches(&self.pattern, key.as_str())
    }

    /// The profiles of an organization that the pattern picks, in their
    /// configured order. None picked is no error here.
    pub fn select_profiles(&self, organization: &Organization) -> (selected: Vec<Profile>)
        ensures
            selected@ == selected_profiles(
                self.pattern(),
                organization.name@,
                organization.profiles@,
            ),
    {
        let mut selected: Vec<Profile> = Vec::new();
        let mut i: usize = 0;
        while i < organization.profiles.len()
            invariant
                i <= organization.profiles.len(),
                selected@ == selected_profiles(
                    self.pattern(),
                    organization.name@,
                    organization.profiles@.take(i as int),
                ),
            decreases organization.profiles.len() - i,
        {
            let profile = &organization.profiles[i];
            proof {
                let next = organization.profiles@.take(i + 1);
                assert(next.drop_last() =~= organization.profiles@.take(i as int));
                assert(next.last() == organization.profiles@[i as int]);
            }
            if self.matches(organization.name.as_str(), profile.name.as_str()) {
                selected.push(profile.clone());
            }
            i += 1;
        }
        proof {
            assert(organization.profiles@.take(i as int) =~= organization.profiles@);
        }
        selected
    }
}

} // verus!
