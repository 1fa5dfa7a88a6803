//! Reading a lockfile and rewriting a manifest through format-keeping TOML
//! documents.
use vstd::prelude::*;
use toml_edit::{ArrayOfTables, DocumentMut, Item, Table};
use crate::locked::{locked_versions_from_records, records_map, LockRecord, LockedVersionMap};
use crate::plan::{plan_dependencies, plans_all, Action, DependencyEntry, EntryShape};
use crate::toml_doc::{
    array_tables, deref_opt, document_string, document_text, error_text, item_array_of_tables,
    item_field, item_get, item_is_table_like, item_str, item_table, parse_document, parsed_document,
    root_item, set_entry, set_entry_field, string_item, string_item_like, table_get, table_key_list,
    table_keys, with_entry_field_set, with_entry_set,
};

verus! {

/// Why a lockfile could not be read.
pub enum LockError {
    /// The text is not TOML; the parser's description.
    Parse(String),
    /// There is no `package` array of tables.
    NoPackageArray,
    /// The package record at this position has no string `name`.
    MissingName(usize),
    /// The package record at this position has no string `version`.
    MissingVersion(usize),
}

/// Why a manifest could not be rewritten.
pub enum ManifestError {
    /// The text is not TOML; the parser's description.
    Parse(String),
    /// There is no `workspace` key.
    NoWorkspace,
    /// `workspace` has no `dependencies` key.
    NoDependencies,
    /// `workspace.dependencies` is not a table.
    DependenciesNotTable,
    /// The entry under this key has a `package` field that is not a string.
    PackageNotString(String),
    /// The entry under this key could not be found to be read or rewritten.
    EntryLost(String),
}

/// A rewritten manifest, with the dependency entries that were read and the
/// decision taken for each.
pub struct PinnedManifest {
    pub text: String,
    pub entries: Vec<DependencyEntry>,
    pub actions: Vec<Action>,
}

/// The `package` array of tables of a lockfile document.
pub open spec fn lock_array(d: DocumentMut) -> Option<ArrayOfTables> {
    match item_get(root_item(d), "package"@) {
        Some(i) => item_array_of_tables(i),
        None => None,
    }
}

/// The string under a key of a table.
pub open spec fn table_str(t: Table, key: Seq<char>) -> Option<Seq<char>> {
    match table_get(t, key) {
        Some(i) => item_str(i),
        None => None,
    }
}

/// An element of the `package` array is no table, or has a string `name`
/// and a string `version`.
pub open spec fn record_ok(o: Option<Table>) -> bool {
    match o {
        Some(t) => table_str(t, "name"@) is Some && table_str(t, "version"@) is Some,
        None => true,
    }
}

/// Every element of the `package` array is readable.
pub open spec fn records_ok(ts: Seq<Option<Table>>) -> bool {
    forall|i: int| 0 <= i < ts.len() ==> record_ok(#[trigger] ts[i])
}

/// The map from name to version that the package tables describe, read in
/// order; a later table with the same name wins.
pub open spec fn tables_map(ts: Seq<Option<Table>>) -> Map<Seq<char>, Seq<char>>
    decreases ts.len(),
{
    if ts.len() == 0 {
        Map::empty()
    } else {
        let m = tables_map(ts.drop_last());
        match ts.last() {
            Some(t) => m.insert(table_str(t, "name"@)->0, table_str(t, "version"@)->0),
            None => m,
        }
    }
}

/// `e` names an element of the `package` array that is unreadable for the
/// reason it gives.
pub open spec fn lock_error_at(ts: Seq<Option<Table>>, e: LockError) -> bool {
    match e {
        LockError::MissingName(i) => i < ts.len() && ts[i as int] is Some
            && table_str(ts[i as int]->0, "name"@) is None,
        LockError::MissingVersion(i) => i < ts.len() && ts[i as int] is Some
            && table_str(ts[i as int]->0, "name"@) is Some
            && table_str(ts[i as int]->0, "version"@) is None,
        _ => false,
    }
}

fn string_field(t: &Table, key: &str) -> (r: Option<String>)
    ensures
        match table_str(*t, key@) {
            Some(s) => r is Some && r->0@ == s,
            None => r is None,
        },
{
    match t.get(key) {
        Some(item) => match item.as_str() {
            Some(s) => Some(s.to_owned()),
            None => None,
        },
        None => None,
    }
}

fn read_lock_records(doc: &DocumentMut) -> (r: Result<Vec<LockRecord>, LockError>)
    ensures
        match lock_array(*doc) {
            None => r is Err && r->Err_0 is NoPackageArray,
            Some(a) => (r is Ok <==> records_ok(array_tables(a)))
                && (r is Ok ==> records_map(r->Ok_0@) == tables_map(array_tables(a)))
                && (r is Err ==> lock_error_at(array_tables(a), r->Err_0)),
        },
{
    let packages = match item_field(doc.as_item(), "package") {
        Some(item) => match item.as_array_of_tables() {
            Some(a) => a,
            None => return Err(LockError::NoPackageArray),
        },
        None => return Err(LockError::NoPackageArray),
    };
    let ghost ts = array_tables(*packages);
    assert(lock_array(*doc) == Some(*packages));
    let n = packages.len();
    let mut records: Vec<LockRecord> = Vec::new();
    let mut i: usize = 0;
    while i < n
        invariant
            lock_array(*doc) == Some(*packages),
            n == ts.len(),
            ts == array_tables(*packages),
            i <= n,
            forall|j: int| 0 <= j < i ==> record_ok(#[trigger] ts[j]),
            records_map(records@) == tables_map(ts.subrange(0, i as int)),
        decreases n - i,
    {
        proof {
            assert(ts.subrange(0, i + 1).drop_last() =~= ts.subrange(0, i as int));
        }
        if let Some(t) = packages.get(i) {
            assert(ts[i as int] == Some(*t));
            let name = match string_field(t, "name") {
                Some(s) => s,
                None => {
                    assert(!record_ok(ts[i as int]));
                    return Err(LockError::MissingName(i));
                },
            };
            let version = match string_field(t, "version") {
                Some(s) => s,
                None => {
                    assert(!record_ok(ts[i as int]));
                    return Err(LockError::MissingVersion(i));
                },
            };
            let ghost before = records@;
            records.push(LockRecord { name, version });
            proof {
                assert(records@.drop_last() =~= before);
            }
        }
        i = i + 1;
    }
    proof {
        assert(ts.subrange(0, n as int) =~= ts);
    }
    Ok(records)
}

/// Reads the lockfile text into the map from package name to locked
/// version: the package tables read in order, a later one of a name winning.
/// Fails where the text is not TOML, has no `package` array of tables, or
/// has a package table without a string `name` or `version`.
pub fn get_locked_versions(lock_text: &str) -> (r: Result<LockedVersionMap, LockError>)
    ensures
        match parsed_document(lock_text@) {
            None => r is Err && r->Err_0 is Parse,
            Some(d) => match lock_array(d) {
                None => r is Err && r->Err_0 is NoPackageArray,
                Some(a) => (r is Ok <==> records_ok(array_tables(a)))
                    && (r is Ok ==> r->Ok_0.wf() && r->Ok_0@ == tables_map(array_tables(a)))
                    && (r is Err ==> lock_error_at(array_tables(a), r->Err_0)),
            },
        },
{
    let doc = match parse_document(lock_text) {
        Ok(d) => d,
        Err(e) => return Err(LockError::Parse(error_text(&e))),
    };
    let records = match read_lock_records(&doc) {
        Ok(rs) => rs,
        Err(e) => return Err(e),
    };
    Ok(locked_versions_from_records(&records))
}

/// The entry of a table item is readable: it is there, and a `package`
/// field of a table-like entry is a string.
pub open spec fn entry_ok(t: Table, k: Seq<char>) -> bool {
    match table_get(t, k) {
        None => false,
        Some(it) => !item_is_table_like(it) || match item_get(it, "package"@) {
            Some(p) => item_str(p) is Some,
            None => true,
        },
    }
}

/// Every entry of the dependency table is readable.
pub open spec fn entries_ok(t: Table) -> bool {
    forall|i: int| 0 <= i < table_key_list(t).len() ==> entry_ok(t, #[trigger] table_key_list(t)[i])
}

/// `s` is the shape that the entry item `it` is read with.
pub open spec fn shape_read(s: EntryShape, it: Item) -> bool {
    if item_is_table_like(it) {
        match s {
            EntryShape::Detailed { package, has_path, has_git } =>
                has_path == (item_get(it, "path"@) is Some)
                && has_git == (item_get(it, "git"@) is Some)
                && match item_get(it, "package"@) {
                    None => package is None,
                    Some(p) => package is Some && item_str(p) == Some(package->0@),
                },
            EntryShape::Simple => false,
        }
    } else {
        s is Simple
    }
}

/// `es` holds, in order, the entries of table `t`, each with its key and
/// the shape it is read with.
pub open spec fn entries_read(es: Seq<DependencyEntry>, t: Table) -> bool {
    let keys = table_key_list(t);
    es.len() == keys.len() && forall|i: int| 0 <= i < es.len() ==> {
        &&& (#[trigger] es[i]).key@ == keys[i]
        &&& table_get(t, keys[i]) is Some
        &&& shape_read(es[i].shape, table_get(t, keys[i])->0)
    }
}

fn entry_shape(key: &String, item: &Item) -> (r: Result<EntryShape, ManifestError>)
    ensures
        r is Ok <==> (!item_is_table_like(*item) || match item_get(*item, "package"@) {
            Some(p) => item_str(p) is Some,
            None => true,
        }),
        r is Ok ==> shape_read(r->Ok_0, *item),
        r is Err ==> (r->Err_0 matches ManifestError::PackageNotString(k) && k@ == key@),
{
    if item.is_table_like() {
        let package = match item_field(item, "package") {
            Some(p) => match p.as_str() {
                Some(s) => Some(s.to_owned()),
                None => return Err(ManifestError::PackageNotString(key.clone())),
            },
            None => None,
        };
        let has_path = item_field(item, "path").is_some();
        let has_git = item_field(item, "git").is_some();
        Ok(EntryShape::Detailed { package, has_path, has_git })
    } else {
        Ok(EntryShape::Simple)
    }
}

/// The dependency table of a manifest document.
pub open spec fn dependency_table(d: DocumentMut) -> Option<Table> {
    match item_get(root_item(d), "workspace"@) {
        Some(w) => match item_get(w, "dependencies"@) {
            Some(dd) => item_table(dd),
            None => None,
        },
        None => None,
    }
}

/// `e` is the error owed to a document without a dependency table.
pub open spec fn table_error(d: DocumentMut, e: ManifestError) -> bool {
    match item_get(root_item(d), "workspace"@) {
        None => e is NoWorkspace,
        Some(w) => match item_get(w, "dependencies"@) {
            None => e is NoDependencies,
            Some(dd) => e is DependenciesNotTable,
        },
    }
}

fn read_dependencies(doc: &DocumentMut) -> (r: Result<Vec<DependencyEntry>, ManifestError>)
    ensures
        match dependency_table(*doc) {
            None => r is Err && table_error(*doc, r->Err_0),
            Some(t) => (r is Ok <==> entries_ok(t))
                && (r is Ok ==> entries_read(r->Ok_0@, t))
                && (r is Err ==> r->Err_0 is PackageNotString || r->Err_0 is EntryLost),
        },
{
    let workspace = match item_field(doc.as_item(), "workspace") {
        Some(w) => w,
        None => return Err(ManifestError::NoWorkspace),
    };
    let deps = match item_field(workspace, "dependencies") {
        Some(d) => d,
        None => return Err(ManifestError::NoDependencies),
    };
    let table = match deps.as_table() {
        Some(t) => t,
        None => return Err(ManifestError::DependenciesNotTable),
    };
    let keys = table_keys(table);
    let ghost kl = table_key_list(*table);
    assert(dependency_table(*doc) == Some(*table));
    let mut entries: Vec<DependencyEntry> = Vec::new();
    let mut i: usize = 0;
    while i < keys.len()
        invariant
            dependency_table(*doc) == Some(*table),
            kl == table_key_list(*table),
            keys@.len() == kl.len(),
            forall|j: int| 0 <= j < keys@.len() ==> (#[trigger] keys@[j])@ == kl[j],
            i <= keys@.len(),
            entries@.len() == i,
            forall|j: int| 0 <= j < i ==> entry_ok(*table, #[trigger] kl[j]),
            forall|j: int| 0 <= j < i ==> {
                &&& (#[trigger] entries@[j]).key@ == kl[j]
                &&& table_get(*table, kl[j]) is Some
                &&& shape_read(entries@[j].shape, table_get(*table, kl[j])->0)
            },
        decreases keys@.len() - i,
    {
        let key = &keys[i];
        assert(key@ == kl[i as int]);
        let item = match table.get(key.as_str()) {
            Some(it) => it,
            None => {
                assert(!entry_ok(*table, kl[i as int]));
                return Err(ManifestError::EntryLost(key.clone()));
            },
        };
        let shape = match entry_shape(key, item) {
            Ok(sh) => sh,
            Err(e) => {
                assert(!entry_ok(*table, kl[i as int]));
                return Err(e);
            },
        };
        entries.push(DependencyEntry { key: key.clone(), shape });
        i = i + 1;
    }
    Ok(entries)
}

/// The current entry `k` of the dependency table.
pub open spec fn entry_in(d: DocumentMut, k: Seq<char>) -> Option<Item> {
    match item_get(root_item(d), "workspace"@) {
        Some(w) => match item_get(w, "dependencies"@) {
            Some(dd) => item_get(dd, k),
            None => None,
        },
        None => None,
    }
}

/// The document after the decision `a` for entry `e`: a detailed entry has
/// its `version` field set, a simple one is replaced by the version string,
/// each new value keeping the decor of the one it replaces; a skip changes
/// nothing.
pub open spec fn edit_step(d: DocumentMut, e: DependencyEntry, a: Action) -> Option<DocumentMut> {
    match a {
        Action::Rewrite { version, detailed, .. } => if detailed {
            let like = match entry_in(d, e.key@) {
                Some(it) => item_get(it, "version"@),
                None => None,
            };
            with_entry_field_set(d, "workspace"@, "dependencies"@, e.key@, "version"@, string_item(version@, like))
        } else {
            with_entry_set(d, "workspace"@, "dependencies"@, e.key@, string_item(version@, entry_in(d, e.key@)))
        },
        _ => Some(d),
    }
}

/// The document after every decision, in order; `None` where one of them
/// finds no entry to write into.
pub open spec fn apply_edits(d: DocumentMut, es: Seq<DependencyEntry>, acts: Seq<Action>) -> Option<DocumentMut>
    decreases acts.len(),
{
    if acts.len() == 0 || es.len() == 0 {
        Some(d)
    } else {
        match edit_step(d, es[0], acts[0]) {
            Some(d2) => apply_edits(d2, es.drop_first(), acts.drop_first()),
            None => None,
        }
    }
}

/// Decisions that all skip leave the document exactly as it was.
pub proof fn lemma_skips_leave_document(d: DocumentMut, es: Seq<DependencyEntry>, acts: Seq<Action>)
    requires
        forall|i: int| 0 <= i < acts.len() ==> !(#[trigger] acts[i] is Rewrite),
    ensures
        apply_edits(d, es, acts) == Some(d),
    decreases acts.len(),
{
    if acts.len() > 0 && es.len() > 0 {
        assert(!(acts[0] is Rewrite));
        let rest = acts.drop_first();
        assert forall|i: int| 0 <= i < rest.len() implies !(#[trigger] rest[i] is Rewrite) by {
            assert(rest[i] == acts[i + 1]);
        }
        lemma_skips_leave_document(d, es.drop_first(), rest);
    }
}

fn entry_item<'a>(doc: &'a DocumentMut, key: &str) -> (r: Option<&'a Item>)
    ensures
        deref_opt(r) == entry_in(*doc, key@),
{
    match item_field(doc.as_item(), "workspace") {
        Some(w) => match item_field(w, "dependencies") {
            Some(dd) => item_field(dd, key),
            None => None,
        },
        None => None,
    }
}

fn apply_actions(doc: &mut DocumentMut, entries: &Vec<DependencyEntry>, actions: &Vec<Action>) -> (r: Result<(), ManifestError>)
    requires
        entries@.len() == actions@.len(),
    ensures
        match apply_edits(*old(doc), entries@, actions@) {
            Some(d) => r is Ok && *final(doc) == d,
            None => r is Err && r->Err_0 is EntryLost,
        },
        (item_table(root_item(*final(doc))) is Some) == (item_table(root_item(*old(doc))) is Some),
{
    let ghost d0 = *doc;
    let ghost n = actions@.len() as int;
    let mut i: usize = 0;
    proof {
        assert(entries@.subrange(0, n) =~= entries@);
        assert(actions@.subrange(0, n) =~= actions@);
    }
    while i < actions.len()
        invariant
            d0 == *old(doc),
            i <= actions@.len(),
            n == actions@.len(),
            entries@.len() == actions@.len(),
            apply_edits(d0, entries@, actions@) == apply_edits(*doc, entries@.subrange(i as int, n), actions@.subrange(i as int, n)),
            (item_table(root_item(*doc)) is Some) == (item_table(root_item(d0)) is Some),
        decreases actions@.len() - i,
    {
        let ghost es = entries@.subrange(i as int, n);
        let ghost acts = actions@.subrange(i as int, n);
        proof {
            assert(es.drop_first() =~= entries@.subrange(i + 1, n));
            assert(acts.drop_first() =~= actions@.subrange(i + 1, n));
            assert(es[0] == entries@[i as int]);
            assert(acts[0] == actions@[i as int]);
        }
        let key = entries[i].key.as_str();
        match &actions[i] {
            Action::Rewrite { version, detailed, .. } => {
                let done = if *detailed {
                    let like = match entry_item(doc, key) {
                        Some(it) => item_field(it, "version"),
                        None => None,
                    };
                    let item = string_item_like(version.as_str(), like);
                    set_entry_field(doc, "workspace", "dependencies", key, "version", item)
                } else {
                    let item = string_item_like(version.as_str(), entry_item(doc, key));
                    set_entry(doc, "workspace", "dependencies", key, item)
                };
                if !done {
                    return Err(ManifestError::EntryLost(entries[i].key.clone()));
                }
            },
            _ => {},
        }
        i = i + 1;
    }
    proof {
        assert(entries@.subrange(n, n).len() == 0);
    }
    Ok(())
}

/// Pins the manifest text's workspace dependencies to the locked versions.
/// Each entry of `workspace.dependencies` is read, in order, and gets the
/// decision that `plans_all` owes it; the text that comes back is that of
/// the document with every decision written in, all else as it was.
pub fn pin_manifest(manifest_text: &str, locked: &LockedVersionMap) -> (r: Result<PinnedManifest, ManifestError>)
    requires
        locked.wf(),
    ensures
        match parsed_document(manifest_text@) {
            None => r is Err && r->Err_0 is Parse,
            Some(d) => match dependency_table(d) {
                None => r is Err && table_error(d, r->Err_0),
                Some(t) => (entries_ok(t) ==> (r is Ok || r->Err_0 is EntryLost))
                    && (r is Err ==> r->Err_0 is PackageNotString || r->Err_0 is EntryLost)
                    && (r is Err && r->Err_0 is PackageNotString ==> !entries_ok(t))
                    && (r is Ok ==> {
                        &&& entries_read(r->Ok_0.entries@, t)
                        &&& plans_all(r->Ok_0.entries@, locked@, r->Ok_0.actions@)
                        &&& apply_edits(d, r->Ok_0.entries@, r->Ok_0.actions@) is Some
                        &&& r->Ok_0.text@ == document_string(apply_edits(d, r->Ok_0.entries@, r->Ok_0.actions@)->0)
                    }),
            },
        },
{
    let mut doc = match parse_document(manifest_text) {
        Ok(d) => d,
        Err(e) => return Err(ManifestError::Parse(error_text(&e))),
    };
    let entries = match read_dependencies(&doc) {
        Ok(es) => es,
        Err(e) => return Err(e),
    };
    let actions = plan_dependencies(&entries, locked);
    match apply_actions(&mut doc, &entries, &actions) {
        Ok(()) => {},
        Err(e) => return Err(e),
    }
    let text = document_text(&doc);
    Ok(PinnedManifest { text, entries, actions })
}

} // verus!
