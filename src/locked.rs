//! The map from package name to locked version, built from lockfile records.
use vstd::prelude::*;

verus! {

/// One package record of a lockfile: its name and its exact version.
pub struct LockRecord {
    pub name: String,
    pub version: String,
}

/// The map that a sequence of records describes, read front to back: a later
/// record with the same name replaces an earlier one.
pub open spec fn records_map(s: Seq<LockRecord>) -> Map<Seq<char>, Seq<char>>
    decreases s.len(),
{
    if s.len() == 0 {
        Map::empty()
    } else {
        records_map(s.drop_last()).insert(s.last().name@, s.last().version@)
    }
}

/// No two records share a name.
pub open spec fn names_unique(s: Seq<LockRecord>) -> bool {
    forall|i: int, j: int| 0 <= i < j < s.len() ==> s[i].name@ != s[j].name@
}

/// The names that a sequence of records carries.
pub open spec fn record_names(s: Seq<LockRecord>) -> Set<Seq<char>> {
    Set::new(|k: Seq<char>| exists|i: int| 0 <= i < s.len() && s[i].name@ == k)
}

/// The keys of the map are exactly the names of the records.
pub proof fn lemma_records_map_domain(s: Seq<LockRecord>)
    ensures
        records_map(s).dom() == record_names(s),
    decreases s.len(),
{
    if s.len() > 0 {
        let d = s.drop_last();
        lemma_records_map_domain(d);
        assert forall|k: Seq<char>| records_map(s).dom().contains(k) <==> record_names(s).contains(k) by {
            if records_map(s).dom().contains(k) && k != s.last().name@ {
                let i = choose|i: int| 0 <= i < d.len() && d[i].name@ == k;
                assert(s[i] == d[i]);
            }
            if record_names(s).contains(k) {
                let i = choose|i: int| 0 <= i < s.len() && s[i].name@ == k;
                if i < s.len() - 1 {
                    assert(d[i] == s[i]);
                }
            }
        }
        assert(records_map(s).dom() =~= record_names(s));
    }
}

/// A record that no later record renames over decides its name's version.
pub proof fn lemma_last_record_wins(s: Seq<LockRecord>, i: int)
    requires
        0 <= i < s.len(),
        forall|j: int| i < j < s.len() ==> s[j].name@ != s[i].name@,
    ensures
        records_map(s).contains_key(s[i].name@),
        records_map(s)[s[i].name@] == s[i].version@,
    decreases s.len(),
{
    if i < s.len() - 1 {
        let d = s.drop_last();
        assert forall|j: int| i < j < d.len() implies d[j].name@ != d[i].name@ by {
            assert(d[j] == s[j]);
        }
        lemma_last_record_wins(d, i);
        assert(d[i] == s[i]);
    }
}

/// Replacing the version of the record at `i` replaces it in the map, where
/// names are unique.
proof fn lemma_records_map_update(s: Seq<LockRecord>, i: int, r: LockRecord)
    requires
        0 <= i < s.len(),
        names_unique(s),
        r.name@ == s[i].name@,
    ensures
        records_map(s.update(i, r)) == records_map(s).insert(r.name@, r.version@),
    decreases s.len(),
{
    let u = s.update(i, r);
    let d = s.drop_last();
    if i == s.len() - 1 {
        assert(u.drop_last() =~= d);
        assert(records_map(u) =~= records_map(s).insert(r.name@, r.version@));
    } else {
        assert(u.drop_last() =~= d.update(i, r));
        lemma_records_map_update(d, i, r);
        assert(s.last().name@ != r.name@);
        assert(records_map(u) =~= records_map(s).insert(r.name@, r.version@));
    }
}

/// The version locked for each package name.
pub struct LockedVersionMap {
    entries: Vec<LockRecord>,
}

impl LockedVersionMap {
    /// The mapping from package name to version.
    pub closed spec fn view(&self) -> Map<Seq<char>, Seq<char>> {
        records_map(self.entries@)
    }

    /// Each name is held once.
    pub closed spec fn wf(&self) -> bool {
        names_unique(self.entries@)
    }

    /// An empty map.
    pub fn new() -> (r: Self)
        ensures
            r.wf(),
            r@ == Map::<Seq<char>, Seq<char>>::empty(),
    {
        LockedVersionMap { entries: Vec::new() }
    }

    /// The number of package names held.
    pub fn len(&self) -> (r: usize)
        requires
            self.wf(),
        ensures
            r == self@.len(),
    {
        proof {
            self.lemma_len();
        }
        self.entries.len()
    }

    proof fn lemma_len(&self)
        requires
            self.wf(),
        ensures
            self@.len() == self.entries@.len(),
    {
        lemma_unique_names_count(self.entries@);
    }

    fn find(&self, name: &String) -> (r: Option<usize>)
        ensures
            match r {
                Some(i) => i < self.entries@.len() && self.entries@[i as int].name@ == name@,
                None => forall|j: int| 0 <= j < self.entries@.len() ==> self.entries@[j].name@ != name@,
            },
    {
        let mut i: usize = 0;
        while i < self.entries.len()
            invariant
                i <= self.entries@.len(),
                forall|j: int| 0 <= j < i ==> self.entries@[j].name@ != name@,
            decreases self.entries@.len() - i,
        {
            if self.entries[i].name == *name {
                return Some(i);
            }
            i = i + 1;
        }
        None
    }

    /// The version locked for `name`, if any.
    pub fn get(&self, name: &String) -> (r: Option<String>)
        requires
            self.wf(),
        ensures
            r is Some <==> self@.contains_key(name@),
            r is Some ==> r->0@ == self@[name@],
    {
        proof {
            lemma_records_map_domain(self.entries@);
        }
        match self.find(name) {
            Some(i) => {
                proof {
                    let s = self.entries@;
                    assert forall|j: int| i < j < s.len() implies s[j].name@ != s[i as int].name@ by {}
                    lemma_last_record_wins(s, i as int);
                }
                Some(self.entries[i].version.clone())
            },
            None => {
                proof {
                    assert(!record_names(self.entries@).contains(name@));
                }
                None
            },
        }
    }

    /// Records `version` for `name`, replacing any version held before.
    pub fn insert(&mut self, name: String, version: String)
        requires
            old(self).wf(),
        ensures
            final(self).wf(),
            final(self)@ == old(self)@.insert(name@, version@),
    {
        match self.find(&name) {
            Some(i) => {
                let r = LockRecord { name, version };
                proof {
                    lemma_records_map_update(self.entries@, i as int, r);
                }
                self.entries.set(i, r);
            },
            None => {
                let r = LockRecord { name, version };
                let ghost s = self.entries@;
                self.entries.push(r);
                proof {
                    assert(self.entries@.drop_last() =~= s);
                }
            },
        }
    }
}

proof fn lemma_records_map_finite(s: Seq<LockRecord>)
    ensures
        records_map(s).dom().finite(),
    decreases s.len(),
{
    if s.len() > 0 {
        lemma_records_map_finite(s.drop_last());
    }
}

/// The map that `records` describes, read in order: a later record with the
/// same name replaces an earlier one.
pub fn locked_versions_from_records(records: &Vec<LockRecord>) -> (r: LockedVersionMap)
    ensures
        r.wf(),
        r@ == records_map(records@),
{
    let mut m = LockedVersionMap::new();
    let mut i: usize = 0;
    while i < records.len()
        invariant
            i <= records@.len(),
            m.wf(),
            m@ == records_map(records@.subrange(0, i as int)),
        decreases records@.len() - i,
    {
        let name = records[i].name.clone();
        let version = records[i].version.clone();
        m.insert(name, version);
        proof {
            assert(records@.subrange(0, i + 1).drop_last() =~= records@.subrange(0, i as int));
        }
        i = i + 1;
    }
    proof {
        assert(records@.subrange(0, records@.len() as int) =~= records@);
    }
    m
}

/// From records whose names are unique, the map holds one entry per record,
/// and each name maps to the version of its own record.
pub proof fn lemma_unique_records_all_found(s: Seq<LockRecord>)
    requires
        names_unique(s),
    ensures
        records_map(s).len() == s.len(),
        forall|i: int|
            0 <= i < s.len() ==> #[trigger] records_map(s).contains_key(s[i].name@)
                && records_map(s)[s[i].name@] == s[i].version@,
{
    lemma_unique_names_count(s);
    assert forall|i: int| 0 <= i < s.len() implies #[trigger] records_map(s).contains_key(s[i].name@)
        && records_map(s)[s[i].name@] == s[i].version@ by {
        lemma_last_record_wins(s, i);
    }
}

/// Of two records with one name, the later one decides the name's version,
/// unless a still later record carries that name too.
pub proof fn lemma_later_duplicate_wins(s: Seq<LockRecord>, i: int, j: int)
    requires
        0 <= i < j < s.len(),
        s[i].name@ == s[j].name@,
        forall|k: int| j < k < s.len() ==> s[k].name@ != s[j].name@,
    ensures
        records_map(s).contains_key(s[i].name@),
        records_map(s)[s[i].name@] == s[j].version@,
{
    lemma_last_record_wins(s, j);
}

/// Where names are unique, the map holds one key for each record.
proof fn lemma_unique_names_count(s: Seq<LockRecord>)
    requires
        names_unique(s),
    ensures
        records_map(s).len() == s.len(),
    decreases s.len(),
{
    if s.len() > 0 {
        let d = s.drop_last();
        assert(names_unique(d)) by {
            assert forall|i: int, j: int| 0 <= i < j < d.len() implies d[i].name@ != d[j].name@ by {
                assert(d[i] == s[i] && d[j] == s[j]);
            }
        }
        lemma_unique_names_count(d);
        lemma_records_map_domain(d);
        lemma_records_map_finite(d);
        if record_names(d).contains(s.last().name@) {
            let i = choose|i: int| 0 <= i < d.len() && d[i].name@ == s.last().name@;
            assert(s[i] == d[i]);
        }
        assert(!records_map(d).dom().contains(s.last().name@));
    }
}

} // verus!
