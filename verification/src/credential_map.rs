//! A mapping from names to credentials, kept as a list of entries in which
//! no name occurs twice.

use vstd::prelude::*;
use crate::model::Credential;

verus! {

/// One entry: a name and the credential stored under it.
#[derive(Debug)]
pub struct Entry {
    pub key: String,
    pub credential: Credential,
}

impl Clone for Entry {
    fn clone(&self) -> (r: Self)
        ensures
            r == *self,
    {
        Entry { key: self.key.clone(), credential: self.credential.clone() }
    }
}

/// The mapping that a list of entries stands for: each entry is set in
/// turn, so that of two entries with one name the later counts.
pub open spec fn entries_map(entries: Seq<Entry>) -> Map<Seq<char>, Credential>
    decreases entries.len(),
{
    if entries.len() == 0 {
        Map::empty()
    } else {
        entries_map(entries.drop_last()).insert(entries.last().key@, entries.last().credential)
    }
}

/// No name occurs in two entries.
pub open spec fn distinct_keys(entries: Seq<Entry>) -> bool {
    forall|i: int, j: int|
        0 <= i < j < entries.len() ==> (#[trigger] entries[i]).key@ != (#[trigger] entries[j]).key@
}

/// The mapping of a list holds a name exactly where an entry has it.
pub proof fn lemma_entries_map_domain(entries: Seq<Entry>, key: Seq<char>)
    ensures
        entries_map(entries).contains_key(key) <==> exists|i: int|
            0 <= i < entries.len() && (#[trigger] entries[i]).key@ == key,
    decreases entries.len(),
{
    if entries.len() > 0 {
        let front = entries.drop_last();
        lemma_entries_map_domain(front, key);
        if entries_map(entries).contains_key(key) {
            if entries.last().key@ == key {
                assert(entries[entries.len() - 1].key@ == key);
            } else {
                let i = choose|i: int| 0 <= i < front.len() && (#[trigger] front[i]).key@ == key;
                assert(entries[i].key@ == key);
            }
        }
        if exists|i: int| 0 <= i < entries.len() && (#[trigger] entries[i]).key@ == key {
            let i = choose|i: int| 0 <= i < entries.len() && (#[trigger] entries[i]).key@ == key;
            if i < front.len() {
                assert(front[i].key@ == key);
            }
        }
    }
}

/// In a list without repeated names, the mapping gives each entry's name
/// that entry's credential.
pub proof fn lemma_entries_map_value(entries: Seq<Entry>, i: int)
    requires
        distinct_keys(entries),
        0 <= i < entries.len(),
    ensures
        entries_map(entries).contains_key(entries[i].key@),
        entries_map(entries)[entries[i].key@] == entries[i].credential,
    decreases entries.len(),
{
    let front = entries.drop_last();
    if i < entries.len() - 1 {
        assert(distinct_keys(front)) by {
            assert forall|a: int, b: int| 0 <= a < b < front.len() implies (#[trigger] front[a]).key@
                != (#[trigger] front[b]).key@ by {
                assert(entries[a].key@ != entries[b].key@);
            }
        }
        lemma_entries_map_value(front, i);
        assert(front[i] == entries[i]);
        assert(entries[i].key@ != entries[entries.len() - 1].key@);
    }
}

/// Replacing the credential of one entry of a list without repeated names
/// sets that name in the mapping.
proof fn lemma_entries_map_update(entries: Seq<Entry>, i: int, entry: Entry)
    requires
        distinct_keys(entries),
        0 <= i < entries.len(),
        entries[i].key@ == entry.key@,
    ensures
        entries_map(entries.update(i, entry)) == entries_map(entries).insert(
            entry.key@,
            entry.credential,
        ),
    decreases entries.len(),
{
    let front = entries.drop_last();
    let updated = entries.update(i, entry);
    if i == entries.len() - 1 {
        assert(updated.drop_last() =~= front);
        assert(entries_map(updated) =~= entries_map(entries).insert(entry.key@, entry.credential));
    } else {
        assert(distinct_keys(front)) by {
            assert forall|a: int, b: int| 0 <= a < b < front.len() implies (#[trigger] front[a]).key@
                != (#[trigger] front[b]).key@ by {
                assert(entries[a].key@ != entries[b].key@);
            }
        }
        lemma_entries_map_update(front, i, entry);
        assert(front[i] == entries[i]);
        assert(updated.drop_last() =~= front.update(i, entry));
        assert(updated.last() == entries.last());
        assert(entries[i].key@ != entries[entries.len() - 1].key@);
        assert(entries_map(updated) =~= entries_map(entries).insert(entry.key@, entry.credential));
    }
}

/// A mapping from names to credentials.
#[derive(Debug)]
pub struct CredentialMap {
    entries: Vec<Entry>,
}

impl View for CredentialMap {
    type V = Map<Seq<char>, Credential>;

    closed spec fn view(&self) -> Map<Seq<char>, Credential> {
        entries_map(self.entries@)
    }
}

impl CredentialMap {
    /// No name occurs twice among the entries.
    pub closed spec fn wf(&self) -> bool {
        distinct_keys(self.entries@)
    }

    /// The entries, in the order in which their names were first set.
    pub closed spec fn entries(&self) -> Seq<Entry> {
        self.entries@
    }

    /// What the entries say of the mapping: it is the mapping of the list,
    /// and the list names nothing twice.
    pub proof fn lemma_entries(&self)
        requires
            self.wf(),
        ensures
            self@ == entries_map(self.entries()),
            distinct_keys(self.entries()),
    {
    }

    /// The empty mapping.
    pub fn new() -> (m: Self)
        ensures
            m.wf(),
            m@ == Map::<Seq<char>, Credential>::empty(),
            m.entries().len() == 0,
    {
        CredentialMap { entries: Vec::new() }
    }

    /// The number of names in the mapping.
    pub fn len(&self) -> (n: usize)
        requires
            self.wf(),
        ensures
            n == self.entries().len(),
            n == self@.dom().len(),
            self@.dom().finite(),
    {
        proof {
            lemma_entries_map_len(self.entries@);
        }
        self.entries.len()
    }

    /// Whether the mapping holds no name.
    pub fn is_empty(&self) -> (b: bool)
        requires
            self.wf(),
        ensures
            b == (self@ == Map::<Seq<char>, Credential>::empty()),
            b == (self.entries().len() == 0),
    {
        proof {
            if self.entries@.len() > 0 {
                lemma_entries_map_domain(self.entries@, self.entries@[0].key@);
                assert(self@.contains_key(self.entries@[0].key@));
            }
        }
        self.entries.len() == 0
    }

    /// The place of a name among the entries.
    fn position(&self, key: &String) -> (r: Option<usize>)
        requires
            self.wf(),
        ensures
            match r {
                Some(i) => i < self.entries@.len() && self.entries@[i as int].key@ == key@,
                None => forall|j: int|
                    0 <= j < self.entries@.len() ==> (#[trigger] self.entries@[j]).key@ != key@,
            },
    {
        let mut i: usize = 0;
        while i < self.entries.len()
            invariant
                i <= self.entries@.len(),
                forall|j: int| 0 <= j < i ==> (#[trigger] self.entries@[j]).key@ != key@,
            decreases self.entries.len() - i,
        {
            if self.entries[i].key == *key {
                return Some(i);
            }
            i += 1;
        }
        None
    }

    /// The credential stored under a name, if there is one.
    pub fn get(&self, key: &String) -> (r: Option<&Credential>)
        requires
            self.wf(),
        ensures
            match r {
                Some(c) => self@.contains_key(key@) && self@[key@] == *c,
                None => !self@.contains_key(key@),
            },
    {
        proof {
            lemma_entries_map_domain(self.entries@, key@);
        }
        match self.position(key) {
            Some(i) => {
                proof {
                    lemma_entries_map_value(self.entries@, i as int);
                }
                Some(&self.entries[i].credential)
            },
            None => None,
        }
    }

    /// Whether a name is in the mapping.
    pub fn contains_key(&self, key: &String) -> (b: bool)
        requires
            self.wf(),
        ensures
            b == self@.contains_key(key@),
    {
        self.get(key).is_some()
    }

    /// Stores a credential under a name, in place of the one that the name
    /// had, if it had one.
    pub fn insert(&mut self, key: String, credential: Credential)
        requires
            old(self).wf(),
        ensures
            final(self).wf(),
            final(self)@ == old(self)@.insert(key@, credential),
    {
        let found = self.position(&key);
        let ghost before = self.entries@;
        let entry = Entry { key, credential };
        match found {
            Some(i) => {
                proof {
                    lemma_entries_map_update(before, i as int, entry);
                }
                self.entries.set(i, entry);
                proof {
                    let after = self.entries@;
                    assert forall|a: int, b: int| 0 <= a < b < after.len() implies (#[trigger] after[a]).key@
                        != (#[trigger] after[b]).key@ by {
                        assert(before[a].key@ != before[b].key@);
                    }
                }
            },
            None => {
                self.entries.push(entry);
                proof {
                    let after = self.entries@;
                    assert(after.drop_last() =~= before);
                    assert forall|a: int, b: int| 0 <= a < b < after.len() implies (#[trigger] after[a]).key@
                        != (#[trigger] after[b]).key@ by {
                        if b < before.len() {
                            assert(before[a].key@ != before[b].key@);
                        } else {
                            assert(before[a].key@ != entry.key@);
                        }
                    }
                }
            },
        }
    }

    /// Adds the entries of another mapping; where both hold a name, the
    /// other's credential counts.
    pub fn merge(&mut self, other: &CredentialMap)
        requires
            old(self).wf(),
            other.wf(),
        ensures
            final(self).wf(),
            final(self)@ == old(self)@.union_prefer_right(other@),
    {
        let mut i: usize = 0;
        proof {
            assert(other.entries@.take(0) =~= Seq::<Entry>::empty());
            assert(self@ =~= old(self)@.union_prefer_right(entries_map(other.entries@.take(0))));
        }
        while i < other.entries.len()
            invariant
                i <= other.entries@.len(),
                self.wf(),
                self@ == old(self)@.union_prefer_right(entries_map(other.entries@.take(i as int))),
            decreases other.entries.len() - i,
        {
            let entry = other.entries[i].clone();
            proof {
                let next = other.entries@.take(i + 1);
                assert(next.drop_last() =~= other.entries@.take(i as int));
                assert(next.last() == other.entries@[i as int]);
                let front = entries_map(other.entries@.take(i as int));
                assert(old(self)@.union_prefer_right(front).insert(entry.key@, entry.credential)
                    =~= old(self)@.union_prefer_right(
                    front.insert(entry.key@, entry.credential),
                ));
            }
            self.insert(entry.key, entry.credential);
            i += 1;
        }
        proof {
            assert(other.entries@.take(i as int) =~= other.entries@);
        }
    }

    /// The entries as a list, in the order in which their names were first
    /// set: no name twice, and the mapping of the list is this mapping.
    pub fn to_entries(&self) -> (list: Vec<Entry>)
        requires
            self.wf(),
        ensures
            list@ == self.entries(),
            distinct_keys(list@),
            entries_map(list@) == self@,
    {
        let mut list: Vec<Entry> = Vec::new();
        let mut i: usize = 0;
        while i < self.entries.len()
            invariant
                i <= self.entries@.len(),
                list@ == self.entries@.take(i as int),
            decreases self.entries.len() - i,
        {
            list.push(self.entries[i].clone());
            proof {
                assert(list@ =~= self.entries@.take(i + 1));
            }
            i += 1;
        }
        proof {
            assert(self.entries@.take(i as int) =~= self.entries@);
        }
        list
    }

    /// The mapping of a list of entries; of two entries with one name the
    /// later counts.
    pub fn from_entries(list: &Vec<Entry>) -> (m: Self)
        ensures
            m.wf(),
            m@ == entries_map(list@),
    {
        let mut m = CredentialMap::new();
        let mut i: usize = 0;
        proof {
            assert(list@.take(0) =~= Seq::<Entry>::empty());
        }
        while i < list.len()
            invariant
                i <= list@.len(),
                m.wf(),
                m@ == entries_map(list@.take(i as int)),
            decreases list.len() - i,
        {
            let entry = list[i].clone();
            proof {
                let next = list@.take(i + 1);
                assert(next.drop_last() =~= list@.take(i as int));
                assert(next.last() == list@[i as int]);
            }
            m.insert(entry.key, entry.credential);
            i += 1;
        }
        proof {
            assert(list@.take(i as int) =~= list@);
        }
        m
    }
}

impl Clone for CredentialMap {
    fn clone(&self) -> (r: Self)
        ensures
            self.wf() ==> r.wf() && r@ == self@ && r.entries() == self.entries(),
    {
        let mut entries: Vec<Entry> = Vec::new();
        let mut i: usize = 0;
        while i < self.entries.len()
            invariant
                i <= self.entries@.len(),
                entries@ == self.entries@.take(i as int),
            decreases self.entries.len() - i,
        {
            entries.push(self.entries[i].clone());
            proof {
                assert(entries@ =~= self.entries@.take(i + 1));
            }
            i += 1;
        }
        proof {
            assert(self.entries@.take(i as int) =~= self.entries@);
        }
        CredentialMap { entries }
    }
}

/// A list without repeated names has as many entries as its mapping has
/// names.
pub proof fn lemma_entries_map_len(entries: Seq<Entry>)
    requires
        distinct_keys(entries),
    ensures
        entries_map(entries).dom().finite(),
        entries_map(entries).dom().len() == entries.len(),
    decreases entries.len(),
{
    if entries.len() > 0 {
        let front = entries.drop_last();
        assert(distinct_keys(front)) by {
            assert forall|a: int, b: int| 0 <= a < b < front.len() implies (#[trigger] front[a]).key@
                != (#[trigger] front[b]).key@ by {
                assert(entries[a].key@ != entries[b].key@);
            }
        }
        lemma_entries_map_len(front);
        lemma_entries_map_domain(front, entries.last().key@);
        if entries_map(front).contains_key(entries.last().key@) {
            let i = choose|i: int|
                0 <= i < front.len() && (#[trigger] front[i]).key@ == entries.last().key@;
            assert(entries[i].key@ != entries[entries.len() - 1].key@);
        }
        assert(entries_map(entries).dom() =~= entries_map(front).dom().insert(
            entries.last().key@,
        ));
    }
}

/// The order of the entries does not matter: two lists without repeated
/// names that hold the same entries stand for the same mapping.
pub proof fn lemma_entries_order(a: Seq<Entry>, b: Seq<Entry>)
    requires
        distinct_keys(a),
        distinct_keys(b),
        forall|i: int| 0 <= i < a.len() ==> b.contains(#[trigger] a[i]),
        forall|j: int| 0 <= j < b.len() ==> a.contains(#[trigger] b[j]),
    ensures
        entries_map(a) == entries_map(b),
{
    assert forall|k: Seq<char>| #[trigger]
        entries_map(a).contains_key(k) implies entries_map(b).contains_key(k) && entries_map(a)[k]
        == entries_map(b)[k] by {
        lemma_entries_map_domain(a, k);
        let i = choose|i: int| 0 <= i < a.len() && (#[trigger] a[i]).key@ == k;
        assert(b.contains(a[i]));
        let j = choose|j: int| 0 <= j < b.len() && b[j] == a[i];
        lemma_entries_map_value(a, i);
        lemma_entries_map_value(b, j);
    }
    assert forall|k: Seq<char>| #[trigger]
        entries_map(b).contains_key(k) implies entries_map(a).contains_key(k) by {
        lemma_entries_map_domain(b, k);
        let j = choose|j: int| 0 <= j < b.len() && (#[trigger] b[j]).key@ == k;
        assert(a.contains(b[j]));
        let i = choose|i: int| 0 <= i < a.len() && a[i] == b[j];
        lemma_entries_map_value(a, i);
    }
    assert(entries_map(a).dom() =~= entries_map(b).dom());
    assert(entries_map(a) =~= entries_map(b));
}

/// Merging is associative: how three mappings are grouped does not change
/// the result.
pub proof fn lemma_merge_associative(
    a: Map<Seq<char>, Credential>,
    b: Map<Seq<char>, Credential>,
    c: Map<Seq<char>, Credential>,
)
    ensures
        a.union_prefer_right(b).union_prefer_right(c) == a.union_prefer_right(
            b.union_prefer_right(c),
        ),
{
    assert(a.union_prefer_right(b).union_prefer_right(c) =~= a.union_prefer_right(
        b.union_prefer_right(c),
    ));
}

/// Merging is commutative on mappings that share no name: the order of the
/// two does not change the result.
pub proof fn lemma_merge_commutative(a: Map<Seq<char>, Credential>, b: Map<Seq<char>, Credential>)
    requires
        a.dom().disjoint(b.dom()),
    ensures
        a.union_prefer_right(b) == b.union_prefer_right(a),
{
    assert forall|k: Seq<char>| a.contains_key(k) implies !b.contains_key(k) by {}
    assert(a.union_prefer_right(b) =~= b.union_prefer_right(a));
}

} // verus!
