//! The credential store: every credential of a run under the key of its
//! organization and profile.

use vstd::prelude::*;
use crate::credential_map::{
    CredentialMap,
    Entry,
    distinct_keys,
    entries_map,
    lemma_entries_map_domain,
    lemma_entries_map_value,
};
use crate::model::{Credential, composite_key, composite_key_of};

verus! {

/// A store after the entries of one organization were set in it, one after
/// the other, each under the key of the organization and its own name.
pub open spec fn stored(
    base: Map<Seq<char>, Credential>,
    organization: Seq<char>,
    entries: Seq<Entry>,
) -> Map<Seq<char>, Credential>
    decreases entries.len(),
{
    if entries.len() == 0 {
        base
    } else {
        stored(base, organization, entries.drop_last()).insert(
            composite_key_of(organization, entries.last().key@),
            entries.last().credential,
        )
    }
}

/// Within one organization, two profile names with one key are one name.
pub proof fn lemma_composite_key_injective(organization: Seq<char>, a: Seq<char>, b: Seq<char>)
    requires
        composite_key_of(organization, a) == composite_key_of(organization, b),
    ensures
        a == b,
{
    let ka = composite_key_of(organization, a);
    let kb = composite_key_of(organization, b);
    assert(ka.subrange(organization.len() as int + 1, ka.len() as int) =~= a);
    assert(kb.subrange(organization.len() as int + 1, kb.len() as int) =~= b);
}

/// Setting an organization's entries leaves every key alone that is not
/// the key of one of them.
pub proof fn lemma_stored_keeps_others(
    base: Map<Seq<char>, Credential>,
    organization: Seq<char>,
    entries: Seq<Entry>,
    key: Seq<char>,
)
    requires
        forall|i: int|
            0 <= i < entries.len() ==> composite_key_of(organization, (#[trigger] entries[i]).key@)
                != key,
    ensures
        stored(base, organization, entries).contains_key(key) == base.contains_key(key),
        base.contains_key(key) ==> stored(base, organization, entries)[key] == base[key],
    decreases entries.len(),
{
    if entries.len() > 0 {
        let front = entries.drop_last();
        assert forall|i: int| 0 <= i < front.len() implies composite_key_of(
            organization,
            (#[trigger] front[i]).key@,
        ) != key by {
            assert(front[i] == entries[i]);
        }
        lemma_stored_keeps_others(base, organization, front, key);
        assert(composite_key_of(organization, entries[entries.len() - 1].key@) != key);
    }
}

/// Setting an organization's entries, no name twice among them, puts each
/// entry's credential under the key of the organization and the entry's name.
pub proof fn lemma_stored_holds(
    base: Map<Seq<char>, Credential>,
    organization: Seq<char>,
    entries: Seq<Entry>,
    i: int,
)
    requires
        distinct_keys(entries),
        0 <= i < entries.len(),
    ensures
        stored(base, organization, entries).contains_key(
            composite_key_of(organization, entries[i].key@),
        ),
        stored(base, organization, entries)[composite_key_of(organization, entries[i].key@)]
            == entries[i].credential,
    decreases entries.len(),
{
    let front = entries.drop_last();
    if i < entries.len() - 1 {
        assert forall|a: int, b: int| 0 <= a < b < front.len() implies (#[trigger] front[a]).key@
            != (#[trigger] front[b]).key@ by {
            assert(entries[a].key@ != entries[b].key@);
        }
        lemma_stored_holds(base, organization, front, i);
        assert(front[i] == entries[i]);
        assert(entries[i].key@ != entries[entries.len() - 1].key@);
        if composite_key_of(organization, entries[i].key@) == composite_key_of(
            organization,
            entries.last().key@,
        ) {
            lemma_composite_key_injective(organization, entries[i].key@, entries.last().key@);
        }
    }
}

/// Whether a key is the key of one of an organization's credentials.
pub open spec fn from_organization(
    organization: Seq<char>,
    credentials: Map<Seq<char>, Credential>,
    key: Seq<char>,
) -> bool {
    exists|name: Seq<char>|
        credentials.contains_key(name) && #[trigger] composite_key_of(organization, name) == key
}

/// Whether `after` is `before` with an organization's credentials merged
/// in: each of them under the key of the organization and its name, and
/// every other key as it was.
pub open spec fn merged_under(
    before: Map<Seq<char>, Credential>,
    after: Map<Seq<char>, Credential>,
    organization: Seq<char>,
    credentials: Map<Seq<char>, Credential>,
) -> bool {
    &&& forall|name: Seq<char>| #[trigger]
        credentials.contains_key(name) ==> after.contains_key(
            composite_key_of(organization, name),
        ) && after[composite_key_of(organization, name)] == credentials[name]
    &&& forall|key: Seq<char>|
        !from_organization(organization, credentials, key) ==> (#[trigger] after.contains_key(key))
            == before.contains_key(key) && (before.contains_key(key) ==> after[key] == before[key])
}

/// Setting the entries of a mapping without repeated names merges the
/// mapping into the store under the organization's keys.
pub proof fn lemma_stored_is_merge(
    base: Map<Seq<char>, Credential>,
    organization: Seq<char>,
    entries: Seq<Entry>,
)
    requires
        distinct_keys(entries),
    ensures
        merged_under(
            base,
            stored(base, organization, entries),
            organization,
            entries_map(entries),
        ),
{
    let after = stored(base, organization, entries);
    let credentials = entries_map(entries);
    assert forall|name: Seq<char>| #[trigger] credentials.contains_key(name) implies after.contains_key(
        composite_key_of(organization, name),
    ) && after[composite_key_of(organization, name)] == credentials[name] by {
        lemma_entries_map_domain(entries, name);
        let i = choose|i: int| 0 <= i < entries.len() && (#[trigger] entries[i]).key@ == name;
        lemma_entries_map_value(entries, i);
        lemma_stored_holds(base, organization, entries, i);
    }
    assert forall|key: Seq<char>| !from_organization(organization, credentials, key) implies (
    #[trigger] after.contains_key(key)) == base.contains_key(key) && (base.contains_key(key)
        ==> after[key] == base[key]) by {
        assert forall|i: int| 0 <= i < entries.len() implies composite_key_of(
            organization,
            (#[trigger] entries[i]).key@,
        ) != key by {
            lemma_entries_map_domain(entries, entries[i].key@);
            assert(credentials.contains_key(entries[i].key@));
            if composite_key_of(organization, entries[i].key@) == key {
                assert(from_organization(organization, credentials, key));
            }
        }
        lemma_stored_keeps_others(base, organization, entries, key);
    }
}

/// The store of one run.
#[derive(Debug)]
pub struct CredentialStore {
    credentials: CredentialMap,
}

impl View for CredentialStore {
    type V = Map<Seq<char>, Credential>;

    closed spec fn view(&self) -> Map<Seq<char>, Credential> {
        self.credentials@
    }
}

impl CredentialStore {
    /// No key occurs twice among the store's entries.
    pub closed spec fn wf(&self) -> bool {
        self.credentials.wf()
    }

    /// The store's entries, in the order in which their keys were first set.
    pub closed spec fn entries(&self) -> Seq<Entry> {
        self.credentials.entries()
    }

    /// The empty store.
    pub fn new() -> (s: Self)
        ensures
            s.wf(),
            s@ == Map::<Seq<char>, Credential>::empty(),
    {
        CredentialStore { credentials: CredentialMap::new() }
    }

    /// The store that a list of entries stands for, each under its key as
    /// it is; of two entries with one key the later counts.
    pub fn load(list: &Vec<Entry>) -> (s: Self)
        ensures
            s.wf(),
            s@ == entries_map(list@),
    {
        CredentialStore { credentials: CredentialMap::from_entries(list) }
    }

    /// The number of keys in the store.
    pub fn len(&self) -> (n: usize)
        requires
            self.wf(),
        ensures
            self@.dom().finite(),
            n == self@.dom().len(),
    {
        self.credentials.len()
    }

    /// The credential of a profile of an organization, if the store has one.
    pub fn get(&self, organization: &str, profile: &str) -> (r: Option<&Credential>)
        requires
            self.wf(),
        ensures
            match r {
                Some(c) => self@.contains_key(composite_key_of(organization@, profile@))
                    && self@[composite_key_of(organization@, profile@)] == *c,
                None => !self@.contains_key(composite_key_of(organization@, profile@)),
            },
    {
        let key = composite_key(organization, profile);
        self.credentials.get(&key)
    }

    /// Stores the credential of a profile of an organization under the
    /// key of the two, in place of what the key had.
    pub fn set_entry(&mut self, organization: &str, profile: &str, credential: Credential)
        requires
            old(self).wf(),
        ensures
            final(self).wf(),
            final(self)@ == old(self)@.insert(
                composite_key_of(organization@, profile@),
                credential,
            ),
    {
        let key = composite_key(organization, profile);
        self.credentials.insert(key, credential);
    }

    /// Stores every credential of an organization's result, each under the
    /// key of the organization and its profile's name.
    pub fn merge_organization(&mut self, organization: &str, credentials: &CredentialMap)
        requires
            old(self).wf(),
            credentials.wf(),
        ensures
            final(self).wf(),
            final(self)@ == stored(old(self)@, organization@, credentials.entries()),
            merged_under(old(self)@, final(self)@, organization@, credentials@),
    {
        let list = credentials.to_entries();
        proof {
            lemma_stored_is_merge(old(self)@, organization@, list@);
        }
        let mut i: usize = 0;
        proof {
            assert(list@.take(0) =~= Seq::<Entry>::empty());
        }
        while i < list.len()
            invariant
                i <= list@.len(),
                self.wf(),
                self@ == stored(old(self)@, organization@, list@.take(i as int)),
            decreases list.len() - i,
        {
            let entry = list[i].clone();
            proof {
                let next = list@.take(i + 1);
                assert(next.drop_last() =~= list@.take(i as int));
                assert(next.last() == list@[i as int]);
            }
            self.set_entry(organization, entry.key.as_str(), entry.credential);
            i += 1;
        }
        proof {
            assert(list@.take(i as int) =~= list@);
        }
    }

    /// The store as a list of entries for writing out: no key twice, and
    /// the list stands for the store.
    pub fn snapshot(&self) -> (list: Vec<Entry>)
        requires
            self.wf(),
        ensures
            list@ == self.entries(),
            distinct_keys(list@),
            entries_map(list@) == self@,
    {
        self.credentials.to_entries()
    }
}

/// Writing a store out as a list and loading the list again gives the
/// store back: the same keys with the same credentials.
pub proof fn lemma_snapshot_load_round_trip(
    store: CredentialStore,
    list: Seq<Entry>,
    loaded: CredentialStore,
)
    requires
        store.wf(),
        list == store.entries(),
        loaded@ == entries_map(list),
    ensures
        loaded@ == store@,
{
    store.credentials.lemma_entries();
}

} // verus!
