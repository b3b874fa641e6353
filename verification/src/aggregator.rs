//! From the outcomes of the profiles of one organization to one result for
//! the organization: every credential under its profile's name, or the
//! first failure and nothing else.

use vstd::prelude::*;
use crate::credential_map::{
    CredentialMap,
    Entry,
    distinct_keys,
    entries_map,
    lemma_entries_order,
};
use crate::error::ProfileFailure;
use crate::model::Credential;

verus! {

/// How the pipeline of one profile ended.
#[derive(Debug)]
pub struct ProfileOutcome {
    pub profile: String,
    pub result: Result<Credential, ProfileFailure>,
}

/// What a caller should be told although nothing failed.
#[derive(Debug, Clone, Copy, PartialEq, Eq, Structural)]
pub enum Warning {
    /// No profile of the organization was selected.
    NoProfilesSelected,
}

/// The result of one organization.
#[derive(Debug)]
pub struct Aggregate {
    pub credentials: CredentialMap,
    pub warning: Option<Warning>,
}

/// Whether every outcome is a success.
pub open spec fn all_succeeded(outcomes: Seq<ProfileOutcome>) -> bool {
    forall|i: int| 0 <= i < outcomes.len() ==> (#[trigger] outcomes[i]).result is Ok
}

/// Whether position `i` holds the first failure among the outcomes.
pub open spec fn first_failure_at(outcomes: Seq<ProfileOutcome>, i: int) -> bool {
    &&& 0 <= i < outcomes.len()
    &&& outcomes[i].result is Err
    &&& forall|j: int| 0 <= j < i ==> (#[trigger] outcomes[j]).result is Ok
}

/// The entry that a successful outcome contributes.
pub open spec fn entry_of(outcome: ProfileOutcome) -> Entry {
    Entry { key: outcome.profile, credential: outcome.result->Ok_0 }
}

/// The entries that successful outcomes contribute, in their order.
pub open spec fn success_entries(outcomes: Seq<ProfileOutcome>) -> Seq<Entry> {
    Seq::new(outcomes.len(), |i: int| entry_of(outcomes[i]))
}

/// The mapping that successful outcomes give: each profile's name with its
/// credential.
pub open spec fn collected(outcomes: Seq<ProfileOutcome>) -> Map<Seq<char>, Credential> {
    entries_map(success_entries(outcomes))
}

/// No profile name occurs in two outcomes.
pub open spec fn distinct_profiles(outcomes: Seq<ProfileOutcome>) -> bool {
    forall|i: int, j: int|
        0 <= i < j < outcomes.len() ==> (#[trigger] outcomes[i]).profile@
            != (#[trigger] outcomes[j]).profile@
}

/// Takes one more outcome into a mapping: a success is stored under the
/// profile's name, a failure is handed on and the mapping is dropped.
pub fn absorb(accumulated: CredentialMap, outcome: ProfileOutcome) -> (r: Result<
    CredentialMap,
    ProfileFailure,
>)
    requires
        accumulated.wf(),
    ensures
        match r {
            Ok(m) => outcome.result is Ok && m.wf() && m@ == accumulated@.insert(
                outcome.profile@,
                outcome.result->Ok_0,
            ),
            Err(f) => outcome.result == Err::<Credential, ProfileFailure>(f),
        },
{
    let mut accumulated = accumulated;
    match outcome.result {
        Ok(credential) => {
            accumulated.insert(outcome.profile, credential);
            Ok(accumulated)
        },
        Err(failure) => Err(failure),
    }
}

/// Joins two mappings into one; where both hold a name, the second's
/// credential counts.
pub fn combine(first: CredentialMap, second: CredentialMap) -> (m: CredentialMap)
    requires
        first.wf(),
        second.wf(),
    ensures
        m.wf(),
        m@ == first@.union_prefer_right(second@),
{
    let mut first = first;
    first.merge(&second);
    first
}

/// The result of an organization whose profiles gave these outcomes, in
/// this order. If any outcome is a failure, the first of them is the
/// result and no credential is kept. Otherwise the result holds every
/// credential under its profile's name; with no outcome at all it is the
/// empty mapping with the warning that no profile was selected.
pub fn aggregate(outcomes: Vec<ProfileOutcome>) -> (r: Result<Aggregate, ProfileFailure>)
    ensures
        match r {
            Ok(a) => {
                &&& all_succeeded(outcomes@)
                &&& a.credentials.wf()
                &&& a.credentials@ == collected(outcomes@)
                &&& a.warning == if outcomes@.len() == 0 {
                    Some(Warning::NoProfilesSelected)
                } else {
                    None::<Warning>
                }
            },
            Err(f) => exists|i: int|
                first_failure_at(outcomes@, i) && (#[trigger] outcomes@[i]).result == Err::<
                    Credential,
                    ProfileFailure,
                >(f),
        },
        outcomes@.len() == 0 ==> r is Ok && r->Ok_0.credentials@ == Map::<
            Seq<char>,
            Credential,
        >::empty(),
        all_succeeded(outcomes@) <==> r is Ok,
{
    let ghost all = outcomes@;
    let count = outcomes.len();
    let mut pending = outcomes;
    let mut reversed: Vec<ProfileOutcome> = Vec::new();
    proof {
        assert(pending@ =~= all.take(pending@.len() as int));
    }
    while pending.len() > 0
        invariant
            pending@.len() + reversed@.len() == all.len(),
            pending@ == all.take(pending@.len() as int),
            forall|k: int|
                0 <= k < reversed@.len() ==> (#[trigger] reversed@[k]) == all[all.len() - 1 - k],
        decreases pending@.len(),
    {
        let ghost before = pending@;
        let last = pending.pop().unwrap();
        proof {
            assert(pending@ =~= all.take(pending@.len() as int));
            assert(last == all[before.len() - 1]);
        }
        reversed.push(last);
    }
    let mut credentials = CredentialMap::new();
    let mut done: usize = 0;
    proof {
        assert(success_entries(all.take(0)) =~= Seq::<Entry>::empty());
    }
    while reversed.len() > 0
        invariant
            done + reversed@.len() == all.len(),
            count == all.len(),
            all == outcomes@,
            forall|k: int|
                0 <= k < reversed@.len() ==> (#[trigger] reversed@[k]) == all[all.len() - 1 - k],
            credentials.wf(),
            credentials@ == collected(all.take(done as int)),
            forall|j: int| 0 <= j < done ==> (#[trigger] all[j]).result is Ok,
        decreases reversed@.len(),
    {
        let ghost remaining = reversed@;
        let outcome = reversed.pop().unwrap();
        proof {
            assert(outcome == remaining[remaining.len() - 1]);
            assert(outcome == all[done as int]);
        }
        match absorb(credentials, outcome) {
            Ok(next) => {
                credentials = next;
                proof {
                    let now = success_entries(all.take(done + 1));
                    assert(now.drop_last() =~= success_entries(all.take(done as int)));
                    assert(now.last() == entry_of(all[done as int]));
                }
            },
            Err(failure) => {
                proof {
                    assert(first_failure_at(all, done as int));
                }
                return Err(failure);
            },
        }
        done += 1;
    }
    proof {
        assert(all.take(done as int) =~= all);
    }
    let warning = if count == 0 {
        Some(Warning::NoProfilesSelected)
    } else {
        None
    };
    Ok(Aggregate { credentials, warning })
}

/// The order of the outcomes does not matter: two lists of successful
/// outcomes that hold the same outcomes, each profile once, give the same
/// mapping.
pub proof fn lemma_collected_order(a: Seq<ProfileOutcome>, b: Seq<ProfileOutcome>)
    requires
        all_succeeded(a),
        all_succeeded(b),
        distinct_profiles(a),
        distinct_profiles(b),
        forall|i: int| 0 <= i < a.len() ==> b.contains(#[trigger] a[i]),
        forall|j: int| 0 <= j < b.len() ==> a.contains(#[trigger] b[j]),
    ensures
        collected(a) == collected(b),
{
    let ea = success_entries(a);
    let eb = success_entries(b);
    assert forall|i: int| 0 <= i < ea.len() implies eb.contains(#[trigger] ea[i]) by {
        assert(b.contains(a[i]));
        let j = choose|j: int| 0 <= j < b.len() && b[j] == a[i];
        assert(eb[j] == ea[i]);
    }
    assert forall|j: int| 0 <= j < eb.len() implies ea.contains(#[trigger] eb[j]) by {
        assert(a.contains(b[j]));
        let i = choose|i: int| 0 <= i < a.len() && a[i] == b[j];
        assert(ea[i] == eb[j]);
    }
    assert(distinct_keys(ea)) by {
        assert forall|i: int, j: int| 0 <= i < j < ea.len() implies (#[trigger] ea[i]).key@
            != (#[trigger] ea[j]).key@ by {
            assert(a[i].profile@ != a[j].profile@);
        }
    }
    assert(distinct_keys(eb)) by {
        assert forall|i: int, j: int| 0 <= i < j < eb.len() implies (#[trigger] eb[i]).key@
            != (#[trigger] eb[j]).key@ by {
            assert(b[i].profile@ != b[j].profile@);
        }
    }
    lemma_entries_order(ea, eb);
}

/// Outcomes may be collected in parts and the parts joined: the mapping of
/// two lists of successful outcomes, one after the other, is the join of
/// their mappings.
pub proof fn lemma_collected_in_parts(a: Seq<ProfileOutcome>, b: Seq<ProfileOutcome>)
    ensures
        collected(a + b) == collected(a).union_prefer_right(collected(b)),
    decreases b.len(),
{
    if b.len() == 0 {
        assert(a + b =~= a);
        assert(success_entries(b) =~= Seq::<Entry>::empty());
        assert(collected(a).union_prefer_right(collected(b)) =~= collected(a));
    } else {
        let front = b.drop_last();
        lemma_collected_in_parts(a, front);
        assert(success_entries(a + b).drop_last() =~= success_entries(a + front));
        assert(success_entries(b).drop_last() =~= success_entries(front));
        assert(success_entries(a + b).last() == success_entries(b).last());
        assert(collected(a + b) =~= collected(a).union_prefer_right(collected(b)));
    }
}

} // verus!
