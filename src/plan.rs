//! What to do with each entry of the workspace dependency table.
use vstd::prelude::*;
use crate::locked::LockedVersionMap;

verus! {

/// How a dependency entry is written.
pub enum EntryShape {
    /// A bare version string: the package name is the table key.
    Simple,
    /// A record: a `package` field renames the package; a `path` or `git`
    /// field makes it a local or source-control dependency.
    Detailed { package: Option<String>, has_path: bool, has_git: bool },
}

/// One entry of the dependency table: its key and its shape.
pub struct DependencyEntry {
    pub key: String,
    pub shape: EntryShape,
}

/// The decision taken for one entry.
pub enum Action {
    /// Write `version` into the entry, looked up under `name`; `detailed`
    /// says whether the entry's `version` field or its whole value changes.
    Rewrite { name: String, version: String, detailed: bool },
    /// Leave the entry: `name` is not in the lockfile.
    SkipNotLocked { name: String },
    /// Leave the entry: it is a path or git dependency.
    SkipPathOrGit { name: String },
}

/// The name under which an entry is looked up in the lockfile.
pub open spec fn lookup_name(e: DependencyEntry) -> Seq<char> {
    match e.shape {
        EntryShape::Detailed { package: Some(p), .. } => p@,
        _ => e.key@,
    }
}

/// The entry names a local path or a git source.
pub open spec fn is_path_or_git(e: DependencyEntry) -> bool {
    match e.shape {
        EntryShape::Detailed { has_path, has_git, .. } => has_path || has_git,
        EntryShape::Simple => false,
    }
}

/// `a` is the decision owed to entry `e` under the lock map `m`.
pub open spec fn planned(e: DependencyEntry, m: Map<Seq<char>, Seq<char>>, a: Action) -> bool {
    let n = lookup_name(e);
    match a {
        Action::Rewrite { name, version, detailed } => m.contains_key(n) && !is_path_or_git(e)
            && name@ == n && version@ == m[n] && detailed == (e.shape is Detailed),
        Action::SkipNotLocked { name } => !m.contains_key(n) && name@ == n,
        Action::SkipPathOrGit { name } => m.contains_key(n) && is_path_or_git(e) && name@ == n,
    }
}

/// `acts` holds, in order, the decision owed to each entry of `es`.
pub open spec fn plans_all(es: Seq<DependencyEntry>, m: Map<Seq<char>, Seq<char>>, acts: Seq<Action>) -> bool {
    acts.len() == es.len() && forall|i: int| 0 <= i < es.len() ==> planned(es[i], m, #[trigger] acts[i])
}

/// Decides what to do with one entry: skip it when its lookup name is not
/// locked, skip it when it is a path or git dependency, else rewrite it with
/// the locked version.
pub fn plan_entry(entry: &DependencyEntry, locked: &LockedVersionMap) -> (r: Action)
    requires
        locked.wf(),
    ensures
        planned(*entry, locked@, r),
{
    let name = match &entry.shape {
        EntryShape::Detailed { package: Some(p), .. } => p.clone(),
        _ => entry.key.clone(),
    };
    match locked.get(&name) {
        None => Action::SkipNotLocked { name },
        Some(version) => match &entry.shape {
            EntryShape::Detailed { has_path, has_git, .. } => {
                if *has_path || *has_git {
                    Action::SkipPathOrGit { name }
                } else {
                    Action::Rewrite { name, version, detailed: true }
                }
            },
            EntryShape::Simple => Action::Rewrite { name, version, detailed: false },
        },
    }
}

/// Decides every entry of the table, in order.
pub fn plan_dependencies(entries: &Vec<DependencyEntry>, locked: &LockedVersionMap) -> (r: Vec<Action>)
    requires
        locked.wf(),
    ensures
        plans_all(entries@, locked@, r@),
{
    let mut r: Vec<Action> = Vec::new();
    let mut i: usize = 0;
    while i < entries.len()
        invariant
            i <= entries@.len(),
            locked.wf(),
            r@.len() == i,
            forall|j: int| 0 <= j < i ==> planned(entries@[j], locked@, #[trigger] r@[j]),
        decreases entries@.len() - i,
    {
        let a = plan_entry(&entries[i], locked);
        r.push(a);
        i = i + 1;
    }
    r
}

impl Action {
    /// Whether the entry was left as it was.
    pub fn is_skip(&self) -> (r: bool)
        ensures
            r == !(self is Rewrite),
    {
        match self {
            Action::Rewrite { .. } => false,
            _ => true,
        }
    }

    /// The diagnostic line that reports the decision.
    pub fn message(&self) -> (r: String)
        ensures
            r@ == match self {
                Action::Rewrite { name, version, .. } => name@ + ": -> "@ + version@,
                Action::SkipNotLocked { name } => name@ + ": SKIP - not defined in .lock"@,
                Action::SkipPathOrGit { name } => name@ + ": SKIP - path or git key are defined"@,
            },
    {
        match self {
            Action::Rewrite { name, version, .. } => name.clone().concat(": -> ").concat(version.as_str()),
            Action::SkipNotLocked { name } => name.clone().concat(": SKIP - not defined in .lock"),
            Action::SkipPathOrGit { name } => name.clone().concat(": SKIP - path or git key are defined"),
        }
    }
}

} // verus!
