//! Recovering the cache after an installation was interrupted.

use vstd::prelude::*;
use crate::installer::binary::publication;
use crate::installer::cache;
use crate::order;
use crate::order::{sort, texts_before, Keyed};
use crate::paths;
use crate::paths::{components_of, file_name_of, join_path};
use crate::text;
use crate::text::{chars_of, last_occurrence, same};

verus! {

/// Whether the mark of a staging or a backup directory stands in `s` at position `at`.
pub open spec fn is_mark_at(s: Seq<char>, at: int) -> bool {
    text::occurs_at(s, "-staging-"@, at) || text::occurs_at(s, "-backup-"@, at)
}

/// Whether `name` is that of a working directory of the entry `key`: a dot, the key, and the last
/// mark of a staging or a backup directory.
pub open spec fn is_work_key(name: Seq<char>, key: Seq<char>) -> bool {
    &&& key.len() > 0
    &&& (seq!['.'] + key).is_prefix_of(name)
    &&& is_mark_at(name.drop_first(), key.len() as int)
    &&& forall|at: int| #[trigger] is_mark_at(name.drop_first(), at) ==> at <= key.len()
}

/// The entry that a working directory belongs to.
pub open spec fn work_key(name: Seq<char>) -> Option<Seq<char>> {
    if exists|key: Seq<char>| is_work_key(name, key) {
        Some(choose|key: Seq<char>| is_work_key(name, key))
    } else {
        None
    }
}

proof fn lemma_work_key(name: Seq<char>, key: Seq<char>)
    requires
        is_work_key(name, key),
    ensures
        work_key(name) == Some(key),
{
    let other = work_key(name)->Some_0;
    assert(is_work_key(name, other));
    let n = key.len() as int;
    assert(is_mark_at(name.drop_first(), n));
    assert(is_mark_at(name.drop_first(), other.len() as int));
    assert(other.len() == n);
    assert(seq!['.'] + key == name.take(n + 1));
    assert(seq!['.'] + other == name.take(n + 1));
    assert(key == (seq!['.'] + key).drop_first());
    assert(other == (seq!['.'] + other).drop_first());
}

/// Gives the entry that a working directory belongs to, going by its name.
pub fn work_dir_cache_key(name: &str) -> (r: Option<String>)
    ensures
        text::opt_text(r) == work_key(name@),
{
    let chars = chars_of(name);
    if chars.len() == 0 || chars[0] != '.' {
        proof {
            if exists|key: Seq<char>| is_work_key(name@, key) {
                let key = choose|key: Seq<char>| is_work_key(name@, key);
                assert((seq!['.'] + key)[0] == '.');
                assert(name@[0] == '.');
            }
        }
        return None;
    }
    let n: usize = chars.len();
    let rest = name.substring_char(1, n);
    let ghost tail = name@.drop_first();
    assert(rest@ == tail);
    let staging = last_occurrence(rest, "-staging-");
    let backup = last_occurrence(rest, "-backup-");
    proof {
        reveal_strlit("-staging-");
        reveal_strlit("-backup-");
        if staging is None {
            assert forall|at: int| !text::occurs_at(tail, "-staging-"@, at) by {
                if text::occurs_at(tail, "-staging-"@, at) {
                    assert(text::occurs(tail, "-staging-"@));
                }
            }
        }
        if backup is None {
            assert forall|at: int| !text::occurs_at(tail, "-backup-"@, at) by {
                if text::occurs_at(tail, "-backup-"@, at) {
                    assert(text::occurs(tail, "-backup-"@));
                }
            }
        }
    }
    let cut: usize = match (staging, backup) {
        (None, None) => {
            proof {
                if exists|key: Seq<char>| is_work_key(name@, key) {
                    let key = choose|key: Seq<char>| is_work_key(name@, key);
                    assert(is_mark_at(tail, key.len() as int));
                }
            }
            return None;
        },
        (Some(a), None) => a,
        (None, Some(b)) => b,
        (Some(a), Some(b)) => if a > b {
            a
        } else {
            b
        },
    };
    proof {
        assert(is_mark_at(tail, cut as int));
        assert forall|at: int| #[trigger] is_mark_at(tail, at) implies at <= cut by {}
    }
    if cut == 0 {
        proof {
            if exists|key: Seq<char>| is_work_key(name@, key) {
                let key = choose|key: Seq<char>| is_work_key(name@, key);
                assert(is_mark_at(tail, key.len() as int));
                assert(false);
            }
        }
        return None;
    }
    let key = rest.substring_char(0, cut);
    proof {
        assert(key@ == tail.take(cut as int));
        let whole = seq!['.'] + key@;
        assert(whole == name@.take(whole.len() as int));
        assert(is_work_key(name@, key@));
        lemma_work_key(name@, key@);
    }
    Some(key.to_owned())
}

/// Whether a working directory's name can end like this: with random letters and digits, or with
/// numbers separated by dashes.
pub open spec fn is_work_suffix(s: Seq<char>) -> bool {
    ||| !s.contains('-')
    ||| forall|i: int| 0 <= i < s.len() ==> #[trigger] s[i] == '-' || '0' <= s[i] <= '9'
}

proof fn lemma_mark_is_last(key: Seq<char>, mark: Seq<char>, suffix: Seq<char>, at: int)
    requires
        mark == "-staging-"@ || mark == "-backup-"@,
        is_work_suffix(suffix),
        is_mark_at(key + mark + suffix, at),
    ensures
        at <= key.len(),
{
    reveal_strlit("-staging-");
    reveal_strlit("-backup-");
    let all = key + mark + suffix;
    let m = mark.len() as int;
    let k = key.len() as int;
    if at > k {
        let found = if text::occurs_at(all, "-staging-"@, at) {
            "-staging-"@
        } else {
            "-backup-"@
        };
        let f = found.len() as int;
        let here = all.subrange(at, at + f);
        assert(here == found);
        assert(all[at] == here[0]);
        assert(all[at + 1] == here[1]);
        assert(all[at + f - 1] == here[f - 1]);
        // The letter behind the first dash is one that no mark has behind its own first letter.
        if at < k + m {
            assert(all[at] == mark[at - k]);
            assert(at == k + m - 1);
            assert(all[at + 1] == suffix[0]);
            assert(all[at + f - 1] == suffix[f - 2]);
            if !suffix.contains('-') {
                assert(suffix.contains(suffix[f - 2]));
            } else {
                assert(suffix[0] == '-' || '0' <= suffix[0] <= '9');
            }
        } else {
            assert(all[at] == suffix[at - k - m]);
            assert(suffix.contains('-'));
            assert(all[at + 1] == suffix[at + 1 - k - m]);
        }
        assert(false);
    }
}

/// The sweep finds the entry that a working directory was made for.
pub proof fn law_work_names_lead_back(key: Seq<char>, mark: Seq<char>, suffix: Seq<char>)
    requires
        key.len() > 0,
        mark == "-staging-"@ || mark == "-backup-"@,
        is_work_suffix(suffix),
    ensures
        work_key("."@ + key + mark + suffix) == Some(key),
{
    reveal_strlit(".");
    let name = "."@ + key + mark + suffix;
    let tail = key + mark + suffix;
    assert(name.drop_first() == tail);
    assert(name.take(key.len() as int + 1) == seq!['.'] + key);
    assert(tail.subrange(key.len() as int, key.len() as int + mark.len()) == mark);
    assert(text::occurs_at(tail, mark, key.len() as int));
    assert(is_mark_at(tail, key.len() as int));
    assert forall|at: int| #[trigger] is_mark_at(name.drop_first(), at) implies at
        <= key.len() by {
        lemma_mark_is_last(key, mark, suffix, at);
    }
    lemma_work_key(name, key);
}

/// The sweep finds the entry whose backup a publication made.
pub proof fn law_backup_names_lead_back(entry: Seq<char>, pid: u32, nanos: u128)
    ensures
        work_key(publication::work_dir_name(entry, "backup"@, pid, nanos)) == Some(
            cache::component(entry),
        ),
{
    reveal_strlit("-");
    reveal_strlit("backup");
    reveal_strlit("-backup-");
    let a = text::decimal(pid as nat);
    let b = text::decimal(nanos as nat);
    let suffix = a + "-"@ + b;
    text::lemma_decimal_digits(pid as nat);
    text::lemma_decimal_digits(nanos as nat);
    assert forall|i: int| 0 <= i < suffix.len() implies #[trigger] suffix[i] == '-' || '0'
        <= suffix[i] <= '9' by {
        if i < a.len() {
            assert(suffix[i] == a[i]);
        } else if i > a.len() {
            assert(suffix[i] == b[i - a.len() - 1]);
        }
    }
    cache::law_components_are_clean(entry);
    assert("-"@ + "backup"@ + "-"@ == "-backup-"@);
    let key = cache::component(entry);
    assert(publication::work_dir_name(entry, "backup"@, pid, nanos) == "."@ + key + "-backup-"@
        + suffix);
    law_work_names_lead_back(key, "-backup-"@, suffix);
}

/// A directory that a scan of the cache found at the place of an entry.
#[derive(Debug, Clone)]
pub struct FoundDir {
    /// Path of the platform directory that it lies in.
    pub platform_dir: String,
    /// Its name.
    pub name: String,
    /// Its path.
    pub path: String,
}

/// A working directory.
#[derive(Debug, Clone)]
pub struct WorkDir {
    pub path: String,
}

impl DeepView for WorkDir {
    type V = Seq<char>;

    open spec fn deep_view(&self) -> Seq<char> {
        self.path@
    }
}

/// The place of a path among others: by its components.
pub open spec fn path_key(path: Seq<char>) -> Seq<Seq<int>> {
    order::texts_key(paths::components(path))
}

impl Keyed for WorkDir {
    open spec fn sort_key(self) -> Seq<Seq<int>> {
        path_key(self.path@)
    }

    fn comes_before(&self, other: &Self) -> (r: bool) {
        texts_before(&components_of(self.path.as_str()), &components_of(other.path.as_str()))
    }
}

/// The working directories of one entry.
#[derive(Debug, Clone)]
pub struct SweepGroup {
    /// Directory of the entry.
    pub cache_dir: String,
    /// Its working directories, in the order of the scan.
    pub entries: Vec<WorkDir>,
}

impl Keyed for SweepGroup {
    open spec fn sort_key(self) -> Seq<Seq<int>> {
        path_key(self.cache_dir@)
    }

    fn comes_before(&self, other: &Self) -> (r: bool) {
        texts_before(
            &components_of(self.cache_dir.as_str()),
            &components_of(other.cache_dir.as_str()),
        )
    }
}

/// The entry that a found directory is a working directory of.
pub open spec fn entry_of(found: FoundDir) -> Option<Seq<char>> {
    match work_key(found.name@) {
        Some(key) => Some(paths::join(found.platform_dir@, key)),
        None => None,
    }
}

/// The working directories of one entry, in the order of the scan.
pub open spec fn dirs_of(found: Seq<FoundDir>, cache_dir: Seq<char>) -> Seq<Seq<char>> {
    found.filter_map(
        |f: FoundDir|
            if entry_of(f) == Some(cache_dir) {
                Some(f.path@)
            } else {
                None
            },
    )
}

/// Whether `groups` holds each working directory once, with its entry, and no entry without one.
pub open spec fn groups_of(groups: Seq<SweepGroup>, found: Seq<FoundDir>) -> bool {
    &&& forall|i: int|
        0 <= i < groups.len() ==> (#[trigger] groups[i]).entries.deep_view() == dirs_of(
            found,
            groups[i].cache_dir@,
        )
    &&& forall|i: int| 0 <= i < groups.len() ==> (#[trigger] groups[i]).entries.len() > 0
    &&& forall|i: int, j: int|
        0 <= i < j < groups.len() ==> (#[trigger] groups[i]).cache_dir@ != (
        #[trigger] groups[j]).cache_dir@
    &&& forall|k: int|
        0 <= k < found.len() && entry_of(#[trigger] found[k]) is Some ==> exists|i: int|
            0 <= i < groups.len() && entry_of(found[k]) == Some(
                (#[trigger] groups[i]).cache_dir@,
            )
}

proof fn lemma_dirs_push(found: Seq<FoundDir>, n: int, cache_dir: Seq<char>)
    requires
        0 <= n < found.len(),
    ensures
        dirs_of(found.take(n + 1), cache_dir) == if entry_of(found[n]) == Some(cache_dir) {
            dirs_of(found.take(n), cache_dir).push(found[n].path@)
        } else {
            dirs_of(found.take(n), cache_dir)
        },
{
    assert(found.take(n + 1).drop_last() == found.take(n));
    assert(found.take(n + 1).last() == found[n]);
}

proof fn lemma_no_dirs(found: Seq<FoundDir>, n: int, cache_dir: Seq<char>)
    requires
        0 <= n <= found.len(),
        forall|k: int| 0 <= k < n ==> entry_of(#[trigger] found[k]) != Some(cache_dir),
    ensures
        dirs_of(found.take(n), cache_dir) == Seq::<Seq<char>>::empty(),
    decreases n,
{
    if n > 0 {
        lemma_no_dirs(found, n - 1, cache_dir);
        lemma_dirs_push(found, n - 1, cache_dir);
    } else {
        assert(found.take(0).len() == 0);
    }
}

/// Groups the working directories that a scan found by the entries they belong to, in the order
/// of the entries.
pub fn stale_groups(found: &Vec<FoundDir>) -> (r: Vec<SweepGroup>)
    ensures
        exists|groups: Seq<SweepGroup>|
            #[trigger] groups_of(groups, found@) && r@ == order::sorted(groups),
{
    let mut groups: Vec<SweepGroup> = Vec::new();
    let mut n: usize = 0;
    while n < found.len()
        invariant
            n <= found.len(),
            groups_of(groups@, found@.take(n as int)),
        decreases found.len() - n,
    {
        let dir = &found[n];
        let ghost before = groups@;
        let ghost seen = found@.take(n as int);
        let ghost next = found@.take(n + 1);
        proof {
            assert(next == seen.push(*dir));
            assert forall|k: int| 0 <= k < n implies seen[k] == found@[k] by {}
        }
        match work_dir_cache_key(dir.name.as_str()) {
            None => {
                assert(entry_of(*dir) is None);
                assert forall|i: int| 0 <= i < before.len() implies (
                #[trigger] before[i]).entries.deep_view() == dirs_of(
                    next,
                    before[i].cache_dir@,
                ) by {
                    lemma_dirs_push(found@, n as int, before[i].cache_dir@);
                }
                assert forall|k: int|
                    0 <= k < next.len() && entry_of(#[trigger] next[k]) is Some implies exists|
                    i: int,
                | 0 <= i < before.len() && entry_of(next[k]) == Some(
                    (#[trigger] before[i]).cache_dir@,
                ) by {
                    assert(k < n);
                    assert(next[k] == seen[k]);
                }
            },
            Some(key) => {
                let cache_dir = join_path(dir.platform_dir.as_str(), key.as_str());
                let ghost d = cache_dir@;
                assert(entry_of(*dir) == Some(d));
                let mut i: usize = 0;
                while i < groups.len() && !same(
                    groups[i].cache_dir.as_str(),
                    cache_dir.as_str(),
                )
                    invariant
                        i <= groups.len(),
                        groups@ == before,
                        d == cache_dir@,
                        forall|k: int| 0 <= k < i ==> (#[trigger] before[k]).cache_dir@ != d,
                    decreases groups.len() - i,
                {
                    i += 1;
                }
                if i < groups.len() {
                    let mut group = groups.remove(i);
                    let ghost listed = group.entries.deep_view();
                    group.entries.push(WorkDir { path: dir.path.clone() });
                    assert(group.entries.deep_view() == listed.push(dir.path@));
                    groups.insert(i, group);
                    proof {
                        let after = groups@;
                        assert(after == before.update(i as int, group));
                        assert forall|k: int| 0 <= k < after.len() implies (
                        #[trigger] after[k]).entries.deep_view() == dirs_of(
                            next,
                            after[k].cache_dir@,
                        ) by {
                            lemma_dirs_push(found@, n as int, after[k].cache_dir@);
                            if k != i {
                                assert(after[k] == before[k]);
                                if before[k].cache_dir@ == d {
                                    assert(before[i as int].cache_dir@ == d);
                                }
                            } else {
                                assert(before[i as int].entries.deep_view() == dirs_of(
                                    seen,
                                    before[i as int].cache_dir@,
                                ));
                            }
                        }
                        assert forall|a: int, b: int| 0 <= a < b < after.len() implies (
                        #[trigger] after[a]).cache_dir@ != (#[trigger] after[b]).cache_dir@ by {
                            assert(before[a].cache_dir@ != before[b].cache_dir@);
                        }
                        assert forall|k: int|
                            0 <= k < next.len() && entry_of(
                                #[trigger] next[k],
                            ) is Some implies exists|j: int|
                            0 <= j < after.len() && entry_of(next[k]) == Some(
                                (#[trigger] after[j]).cache_dir@,
                            ) by {
                            if k < n {
                                assert(next[k] == seen[k]);
                                let j = choose|j: int|
                                    0 <= j < before.len() && entry_of(seen[k]) == Some(
                                        (#[trigger] before[j]).cache_dir@,
                                    );
                                assert(after[j].cache_dir@ == before[j].cache_dir@);
                            } else {
                                assert(after[i as int].cache_dir@ == d);
                            }
                        }
                    }
                } else {
                    let mut entries: Vec<WorkDir> = Vec::new();
                    entries.push(WorkDir { path: dir.path.clone() });
                    assert(entries.deep_view() == seq![dir.path@]);
                    groups.push(SweepGroup { cache_dir, entries });
                    proof {
                        let after = groups@;
                        let fresh = after[before.len() as int];
                        assert forall|k: int| 0 <= k < n implies entry_of(
                            #[trigger] found@[k],
                        ) != Some(d) by {
                            if entry_of(found@[k]) == Some(d) {
                                assert(seen[k] == found@[k]);
                                assert(entry_of(seen[k]) is Some);
                            }
                        }
                        lemma_no_dirs(found@, n as int, d);
                        assert forall|k: int| 0 <= k < after.len() implies (
                        #[trigger] after[k]).entries.deep_view() == dirs_of(
                            next,
                            after[k].cache_dir@,
                        ) by {
                            lemma_dirs_push(found@, n as int, after[k].cache_dir@);
                            if k < before.len() {
                                assert(after[k] == before[k]);
                            } else {
                                assert(Seq::<Seq<char>>::empty().push(dir.path@) == seq![
                                    dir.path@,
                                ]);
                            }
                        }
                        assert forall|a: int, b: int| 0 <= a < b < after.len() implies (
                        #[trigger] after[a]).cache_dir@ != (#[trigger] after[b]).cache_dir@ by {
                            assert(after[a] == before[a]);
                            if b < before.len() {
                                assert(after[b] == before[b]);
                            }
                        }
                        assert forall|k: int|
                            0 <= k < next.len() && entry_of(
                                #[trigger] next[k],
                            ) is Some implies exists|j: int|
                            0 <= j < after.len() && entry_of(next[k]) == Some(
                                (#[trigger] after[j]).cache_dir@,
                            ) by {
                            if k < n {
                                assert(next[k] == seen[k]);
                                let j = choose|j: int|
                                    0 <= j < before.len() && entry_of(seen[k]) == Some(
                                        (#[trigger] before[j]).cache_dir@,
                                    );
                                assert(after[j] == before[j]);
                            } else {
                                assert(fresh.cache_dir@ == d);
                            }
                        }
                    }
                }
            },
        }
        n += 1;
    }
    assert(found@.take(found@.len() as int) == found@);
    sort(groups)
}

/// What the sweep of one entry's working directories is to do next.
#[derive(Debug, Clone, Copy, PartialEq, Eq, Structural)]
pub enum SweepAction {
    /// Take the entry's lock, without waiting for it.
    TryLock,
    /// Look whether the entry exists.
    ProbeEntry,
    /// Move the last of the untried backups to the place of the entry.
    RestoreLatest,
    /// Remove the working directory at the current position.
    RemoveCurrent,
    /// Nothing: the sweep of this entry is over.
    Finish,
}

/// What came of an action.
#[derive(Debug, Clone, Copy, PartialEq, Eq, Structural)]
pub enum SweepEvent {
    /// Whether the lock was free.
    Locked(bool),
    /// Whether the entry exists, if that could be told.
    Probed(Option<bool>),
    /// Whether a move or a removal worked.
    Done(bool),
}

impl SweepEvent {
    /// Whether this event can follow an action.
    pub open spec fn answers(self, action: SweepAction) -> bool {
        match action {
            SweepAction::TryLock => self is Locked,
            SweepAction::ProbeEntry => self is Probed,
            SweepAction::RestoreLatest | SweepAction::RemoveCurrent => self is Done,
            SweepAction::Finish => false,
        }
    }
}

/// The sweep of one entry's working directories.
///
/// A backup is restored before anything is removed, where the entry itself is missing. Nothing is
/// touched while the lock is taken, or where it cannot be told whether the entry exists.
#[derive(Debug, Clone)]
pub struct GroupSweep {
    pub entries: Vec<WorkDir>,
    /// Backups that have not been tried, the one to try next at the end.
    pub untried: Vec<WorkDir>,
    /// The backup that was moved to the place of the entry.
    pub restored: Option<String>,
    /// Whether the entry was found to be missing.
    pub entry_missing: bool,
    /// How many working directories have been dealt with.
    pub position: usize,
    /// How many working directories have been removed.
    pub removed: usize,
    /// What is to be done next.
    pub action: SweepAction,
}

/// A [`GroupSweep`] over sequences.
#[verifier::ext_equal]
pub struct GroupSweepView {
    pub entries: Seq<Seq<char>>,
    pub untried: Seq<Seq<char>>,
    pub restored: Option<Seq<char>>,
    pub entry_missing: bool,
    pub position: int,
    pub removed: int,
    pub action: SweepAction,
}

impl View for GroupSweep {
    type V = GroupSweepView;

    open spec fn view(&self) -> GroupSweepView {
        GroupSweepView {
            entries: self.entries.deep_view(),
            untried: self.untried.deep_view(),
            restored: text::opt_text(self.restored),
            entry_missing: self.entry_missing,
            position: self.position as int,
            removed: self.removed as int,
            action: self.action,
        }
    }
}

/// Whether a working directory is a backup.
pub open spec fn is_backup(path: Seq<char>) -> bool {
    match paths::file_name(path) {
        Some(name) => text::occurs(name, "-backup-"@),
        None => false,
    }
}

/// The backups among the working directories, the latest at the end.
pub open spec fn backups_in_order(entries: Seq<WorkDir>) -> Seq<WorkDir> {
    order::sorted(entries.filter(|d: WorkDir| is_backup(d.path@)))
}

impl GroupSweepView {
    /// The next position from `from` on whose working directory is not the restored backup.
    pub open spec fn next_position(self, from: int) -> int
        decreases self.entries.len() - from,
    {
        if from < self.entries.len() && self.restored == Some(self.entries[from]) {
            self.next_position(from + 1)
        } else {
            from
        }
    }

    /// The sweep when it goes on with the working directory at `from`.
    pub open spec fn going_on(self, from: int) -> GroupSweepView {
        let position = self.next_position(from);
        GroupSweepView {
            position,
            action: if position < self.entries.len() {
                SweepAction::RemoveCurrent
            } else {
                SweepAction::Finish
            },
            ..self
        }
    }

    /// The sweep when it has no other backup to try than those that are left.
    pub open spec fn trying(self) -> GroupSweepView {
        if self.untried.len() > 0 {
            GroupSweepView { action: SweepAction::RestoreLatest, ..self }
        } else {
            self.going_on(self.position)
        }
    }

    /// The sweep after the event that answers its action.
    pub open spec fn after(self, event: SweepEvent) -> GroupSweepView {
        match (self.action, event) {
            (SweepAction::TryLock, SweepEvent::Locked(free)) => GroupSweepView {
                action: if free {
                    SweepAction::ProbeEntry
                } else {
                    SweepAction::Finish
                },
                ..self
            },
            (SweepAction::ProbeEntry, SweepEvent::Probed(None)) => GroupSweepView {
                action: SweepAction::Finish,
                ..self
            },
            (SweepAction::ProbeEntry, SweepEvent::Probed(Some(true))) => self.going_on(
                self.position,
            ),
            (SweepAction::ProbeEntry, SweepEvent::Probed(Some(false))) => GroupSweepView {
                entry_missing: true,
                ..self
            }.trying(),
            (SweepAction::RestoreLatest, SweepEvent::Done(true)) => GroupSweepView {
                restored: Some(self.untried.last()),
                untried: self.untried.drop_last(),
                ..self
            }.going_on(self.position),
            (SweepAction::RestoreLatest, SweepEvent::Done(false)) => GroupSweepView {
                untried: self.untried.drop_last(),
                ..self
            }.trying(),
            (SweepAction::RemoveCurrent, SweepEvent::Done(worked)) => GroupSweepView {
                removed: self.removed + if worked {
                    1int
                } else {
                    0int
                },
                ..self
            }.going_on(self.position + 1),
            _ => self,
        }
    }

    /// What holds at every point of a sweep.
    pub open spec fn is_sound(self) -> bool {
        &&& 0 <= self.removed <= self.position <= self.entries.len()
        &&& self.action == SweepAction::RemoveCurrent ==> self.position < self.entries.len()
            && self.restored != Some(self.entries[self.position])
        &&& self.action == SweepAction::RestoreLatest ==> self.untried.len() > 0
            && self.restored is None && self.entry_missing && self.removed == 0
        &&& self.action == SweepAction::RemoveCurrent && self.entry_missing && self.restored is None
            ==> self.untried.len() == 0
        &&& self.restored is Some ==> self.entry_missing
        &&& self.action == SweepAction::TryLock || self.action == SweepAction::ProbeEntry
            ==> self.removed == 0 && self.restored is None && !self.entry_missing
    }
}

proof fn lemma_next_position(s: GroupSweepView, from: int)
    requires
        0 <= from <= s.entries.len(),
    ensures
        from <= s.next_position(from) <= s.entries.len(),
        s.next_position(from) < s.entries.len() ==> s.restored != Some(
            s.entries[s.next_position(from)],
        ),
    decreases s.entries.len() - from,
{
    if from < s.entries.len() && s.restored == Some(s.entries[from]) {
        lemma_next_position(s, from + 1);
    }
}

fn is_backup_dir(path: &str) -> (r: bool)
    ensures
        r == is_backup(path@),
{
    match file_name_of(path) {
        Some(name) => match last_occurrence(name.as_str(), "-backup-") {
            Some(at) => {
                assert(text::occurs_at(name@, "-backup-"@, at as int));
                true
            },
            None => false,
        },
        None => false,
    }
}

impl GroupSweep {
    /// A sweep that has not begun.
    pub fn new(group: &SweepGroup) -> (r: GroupSweep)
        ensures
            r@.entries == group.entries.deep_view(),
            exists|copies: Seq<WorkDir>|
                copies.map_values(|d: WorkDir| d.deep_view()) == group.entries.deep_view()
                    && r.untried@ == #[trigger] backups_in_order(copies),
            r@.restored is None,
            !r@.entry_missing,
            r@.position == 0,
            r@.removed == 0,
            r@.action == SweepAction::TryLock,
            r@.is_sound(),
    {
        let ghost listed = group.entries.deep_view();
        let mut entries: Vec<WorkDir> = Vec::new();
        let mut backups: Vec<WorkDir> = Vec::new();
        let ghost mut copies: Seq<WorkDir> = Seq::empty();
        let mut i: usize = 0;
        proof {
            reveal(Seq::filter);
            assert(listed.take(0) == entries.deep_view());
            assert(copies.map_values(|d: WorkDir| d.deep_view()) == listed.take(0));
            assert(backups@ == copies.filter(|d: WorkDir| is_backup(d.path@)));
        }
        while i < group.entries.len()
            invariant
                i <= group.entries.len(),
                listed == group.entries.deep_view(),
                entries.deep_view() == listed.take(i as int),
                copies.map_values(|d: WorkDir| d.deep_view()) == listed.take(i as int),
                backups@ == copies.filter(|d: WorkDir| is_backup(d.path@)),
            decreases group.entries.len() - i,
        {
            let ghost done = entries.deep_view();
            let ghost picked = copies;
            let path = group.entries[i].path.as_str();
            entries.push(WorkDir { path: path.to_owned() });
            let copy = WorkDir { path: path.to_owned() };
            proof {
                reveal(Seq::filter);
                copies = copies.push(copy);
                assert(copies.drop_last() == picked);
                assert(listed.take(i + 1) == listed.take(i as int).push(path@));
                assert(entries.deep_view() == done.push(path@));
                assert(copies.map_values(|d: WorkDir| d.deep_view()) == picked.map_values(
                    |d: WorkDir| d.deep_view(),
                ).push(path@));
            }
            if is_backup_dir(path) {
                backups.push(copy);
            }
            i += 1;
        }
        assert(listed.take(listed.len() as int) == listed);
        let untried = sort(backups);
        assert(untried@ == backups_in_order(copies));
        GroupSweep {
            entries,
            untried,
            restored: None,
            entry_missing: false,
            position: 0,
            removed: 0,
            action: SweepAction::TryLock,
        }
    }

    fn is_restored(&self, position: usize) -> (r: bool)
        requires
            position < self.entries.len(),
        ensures
            r == (self@.restored == Some(self@.entries[position as int])),
    {
        assert(self@.entries[position as int] == self.entries@[position as int].path@);
        match &self.restored {
            Some(path) => same(path.as_str(), self.entries[position].path.as_str()),
            None => false,
        }
    }

    fn go_on(&mut self, from: usize)
        requires
            from <= old(self).entries.len(),
        ensures
            final(self)@ == old(self)@.going_on(from as int),
    {
        let mut position: usize = from;
        while position < self.entries.len() && self.is_restored(position)
            invariant
                *self == *old(self),
                from <= position <= self.entries.len(),
                self@.next_position(from as int) == self@.next_position(position as int),
            decreases self.entries.len() - position,
        {
            position += 1;
        }
        self.position = position;
        if position < self.entries.len() {
            self.action = SweepAction::RemoveCurrent;
        } else {
            self.action = SweepAction::Finish;
        }
        assert(self@ =~= old(self)@.going_on(from as int));
    }

    fn try_next(&mut self)
        requires
            old(self).position <= old(self).entries.len(),
        ensures
            final(self)@ == old(self)@.trying(),
    {
        assert(self@.untried.len() == self.untried@.len());
        if self.untried.len() > 0 {
            self.action = SweepAction::RestoreLatest;
        } else {
            let from: usize = self.position;
            self.go_on(from);
        }
    }

    /// Takes what came of the action, and decides on the next one.
    pub fn run(&mut self, event: SweepEvent)
        requires
            old(self)@.is_sound(),
            event.answers(old(self).action),
        ensures
            final(self)@ == old(self)@.after(event),
            final(self)@.is_sound(),
    {
        proof {
            law_sweep_stays_sound(self@, event);
        }
        let from: usize = self.position;
        match (self.action, event) {
            (SweepAction::TryLock, SweepEvent::Locked(free)) => {
                if free {
                    self.action = SweepAction::ProbeEntry;
                } else {
                    self.action = SweepAction::Finish;
                }
            },
            (SweepAction::ProbeEntry, SweepEvent::Probed(None)) => {
                self.action = SweepAction::Finish;
            },
            (SweepAction::ProbeEntry, SweepEvent::Probed(Some(exists))) => {
                if exists {
                    self.go_on(from);
                } else {
                    self.entry_missing = true;
                    self.try_next();
                }
            },
            (SweepAction::RestoreLatest, SweepEvent::Done(worked)) => {
                let ghost before = self.untried.deep_view();
                assert(before.last() == self.untried@.last().path@);
                match self.untried.pop() {
                    None => {},
                    Some(backup) => {
                        assert(self.untried.deep_view() == before.drop_last());
                        if worked {
                            self.restored = Some(backup.path);
                            self.go_on(from);
                        } else {
                            self.try_next();
                        }
                    },
                }
            },
            (SweepAction::RemoveCurrent, SweepEvent::Done(worked)) => {
                let count: usize = self.entries.len();
                assert(self@.entries.len() == count);
                if worked {
                    self.removed = self.removed + 1;
                }
                self.go_on(from + 1);
            },
            _ => {},
        }
    }
}

/// Every step of a sweep keeps it sound: nothing is removed before every backup of a missing
/// entry has been tried, and the backup that was restored is never removed.
pub proof fn law_sweep_stays_sound(s: GroupSweepView, event: SweepEvent)
    requires
        s.is_sound(),
        event.answers(s.action),
    ensures
        s.after(event).is_sound(),
{
    let missing = GroupSweepView { entry_missing: true, ..s };
    let restored = GroupSweepView {
        restored: Some(s.untried.last()),
        untried: s.untried.drop_last(),
        ..s
    };
    let failed = GroupSweepView { untried: s.untried.drop_last(), ..s };
    lemma_next_position(s, s.position);
    lemma_next_position(missing, s.position);
    lemma_next_position(restored, s.position);
    lemma_next_position(failed, s.position);
    if s.action == SweepAction::RemoveCurrent {
        let more = GroupSweepView { removed: s.removed + 1, ..s };
        let same_count = GroupSweepView { removed: s.removed + 0, ..s };
        lemma_next_position(more, s.position + 1);
        lemma_next_position(same_count, s.position + 1);
    }
}

/// Only hidden names with a mark in them are those of working directories, and what such a name
/// belongs to stands between its dot and its last mark.
pub proof fn law_other_names_are_no_work(name: Seq<char>)
    ensures
        name.len() == 0 || name[0] != '.' ==> work_key(name) is None,
        !text::occurs(name, "-staging-"@) && !text::occurs(name, "-backup-"@) ==> work_key(name)
            is None,
        work_key(name) matches Some(key) ==> {
            let at = 1 + key.len() as int;
            &&& name.subrange(1, at) == key
            &&& key.len() > 0
            &&& text::occurs_at(name, "-staging-"@, at) || text::occurs_at(name, "-backup-"@, at)
        },
{
    if work_key(name) is Some {
        let key = work_key(name)->Some_0;
        assert(is_work_key(name, key));
        let head = seq!['.'] + key;
        let rest = name.drop_first();
        let at = 1 + key.len() as int;
        assert(head[0] == '.');
        assert(name.take(head.len() as int) =~= head);
        assert(name[0] == name.take(head.len() as int)[0]);
        assert(name.subrange(1, at) =~= key) by {
            assert forall|i: int| 0 <= i < key.len() implies #[trigger] name.subrange(1, at)[i]
                == key[i] by {
                assert(head[i + 1] == key[i]);
                assert(name.take(head.len() as int)[i + 1] == name[i + 1]);
            }
        }
        if text::occurs_at(rest, "-staging-"@, key.len() as int) {
            lemma_mark_behind_dot(name, "-staging-"@, key.len() as int);
        } else {
            lemma_mark_behind_dot(name, "-backup-"@, key.len() as int);
        }
    }
}

proof fn lemma_mark_behind_dot(name: Seq<char>, mark: Seq<char>, at: int)
    requires
        name.len() > 0,
        text::occurs_at(name.drop_first(), mark, at),
    ensures
        text::occurs_at(name, mark, at + 1),
{
    let rest = name.drop_first();
    assert(name.subrange(at + 1, at + 1 + mark.len()) =~= rest.subrange(at, at + mark.len()));
}

proof fn lemma_dirs_of(found: Seq<FoundDir>, cache_dir: Seq<char>, path: Seq<char>)
    ensures
        dirs_of(found, cache_dir).contains(path) <==> exists|k: int|
            0 <= k < found.len() && entry_of(#[trigger] found[k]) == Some(cache_dir)
                && found[k].path@ == path,
    decreases found.len(),
{
    reveal(Seq::filter_map);
    let pick = |f: FoundDir|
        if entry_of(f) == Some(cache_dir) {
            Some(f.path@)
        } else {
            None
        };
    if found.len() > 0 {
        let front = found.drop_last();
        let before = dirs_of(front, cache_dir);
        let after = dirs_of(found, cache_dir);
        lemma_dirs_of(front, cache_dir, path);
        let last = found.last();
        if entry_of(last) == Some(cache_dir) {
            assert(after == before.push(last.path@));
            assert(after.last() == last.path@);
            if before.contains(path) {
                let i = choose|i: int| 0 <= i < before.len() && before[i] == path;
                assert(after[i] == path);
            }
            if after.contains(path) && path != last.path@ {
                let i = choose|i: int| 0 <= i < after.len() && after[i] == path;
                assert(before[i] == path);
            }
        } else {
            assert(after == before);
        }
        if exists|k: int|
            0 <= k < front.len() && entry_of(#[trigger] front[k]) == Some(cache_dir)
                && front[k].path@ == path {
            let k = choose|k: int|
                0 <= k < front.len() && entry_of(#[trigger] front[k]) == Some(cache_dir)
                    && front[k].path@ == path;
            assert(found[k] == front[k]);
        }
        if exists|k: int|
            0 <= k < found.len() && entry_of(#[trigger] found[k]) == Some(cache_dir)
                && found[k].path@ == path {
            let k = choose|k: int|
                0 <= k < found.len() && entry_of(#[trigger] found[k]) == Some(cache_dir)
                    && found[k].path@ == path;
            if k < front.len() {
                assert(front[k] == found[k]);
            }
        }
    } else {
        assert(dirs_of(found, cache_dir).len() == 0);
    }
}

/// Every working directory that was found is in the group of the entry it belongs to, and in no
/// other group unless it was found there too; the groups hold nothing else.
pub proof fn law_work_is_grouped_by_its_entry(
    groups: Seq<SweepGroup>,
    found: Seq<FoundDir>,
    k: int,
    i: int,
    path: Seq<char>,
)
    requires
        groups_of(groups, found),
    ensures
        0 <= k < found.len() && work_key(found[k].name@) is Some ==> exists|g: int|
            0 <= g < groups.len() && (#[trigger] groups[g]).cache_dir@ == paths::join(
                found[k].platform_dir@,
                work_key(found[k].name@)->Some_0,
            ) && groups[g].entries.deep_view().contains(found[k].path@),
        0 <= i < groups.len() && groups[i].entries.deep_view().contains(path) ==> exists|n: int|
            0 <= n < found.len() && (#[trigger] found[n]).path@ == path && work_key(found[n].name@)
                is Some && groups[i].cache_dir@ == paths::join(
                found[n].platform_dir@,
                work_key(found[n].name@)->Some_0,
            ),
{
    if 0 <= k < found.len() && work_key(found[k].name@) is Some {
        assert(entry_of(found[k]) is Some);
        let g = choose|g: int|
            0 <= g < groups.len() && entry_of(found[k]) == Some((#[trigger] groups[g]).cache_dir@);
        lemma_dirs_of(found, groups[g].cache_dir@, found[k].path@);
        assert(groups[g].entries.deep_view().contains(found[k].path@));
    }
    if 0 <= i < groups.len() && groups[i].entries.deep_view().contains(path) {
        lemma_dirs_of(found, groups[i].cache_dir@, path);
        let n = choose|n: int|
            0 <= n < found.len() && entry_of(#[trigger] found[n]) == Some(groups[i].cache_dir@)
                && found[n].path@ == path;
        assert(found[n].path@ == path);
    }
}

/// Groups, and the directories in one, come in the order of their paths.
pub proof fn law_sweeps_go_by_path(group: SweepGroup, dir: WorkDir)
    ensures
        group.sort_key() == order::texts_key(paths::components(group.cache_dir@)),
        dir.sort_key() == order::texts_key(paths::components(dir.path@)),
{
}

/// The backups of a group are all of its directories with the mark of one, and no others, in the
/// order of their paths.
pub proof fn law_backups_are_told_by_their_mark(entries: Seq<WorkDir>, dir: WorkDir)
    ensures
        backups_in_order(entries).contains(dir) <==> entries.contains(dir) && paths::file_name(
            dir.path@,
        ) is Some && text::occurs(paths::file_name(dir.path@)->Some_0, "-backup-"@),
        order::in_order(backups_in_order(entries)),
{
    broadcast use vstd::seq_lib::group_to_multiset_ensures;

    let pred = |d: WorkDir| is_backup(d.path@);
    let kept = entries.filter(pred);
    order::lemma_sorted(kept);
    let all = backups_in_order(entries);
    assert(all.contains(dir) <==> all.to_multiset().count(dir) > 0);
    assert(kept.contains(dir) <==> kept.to_multiset().count(dir) > 0);
    if kept.contains(dir) {
        entries.lemma_filter_contains_rev(pred, dir);
        let i = choose|i: int| 0 <= i < kept.len() && kept[i] == dir;
        entries.lemma_filter_pred(pred, i);
    }
    if entries.contains(dir) && is_backup(dir.path@) {
        let i = choose|i: int| 0 <= i < entries.len() && entries[i] == dir;
        entries.lemma_filter_contains(pred, i);
    }
}

/// A group that is in use is left alone. An entry that is there is never restored; one that is
/// missing is restored from its newest backup that can be, before anything is removed.
pub proof fn law_sweeps_restore_before_they_remove(s: GroupSweepView, there: bool, worked: bool)
    ensures
        s.action == SweepAction::TryLock ==> s.after(SweepEvent::Locked(false)).action
            == SweepAction::Finish && s.after(SweepEvent::Locked(true)).action
            == SweepAction::ProbeEntry,
        s.action == SweepAction::ProbeEntry ==> {
            &&& s.after(SweepEvent::Probed(None)).action == SweepAction::Finish
            &&& s.after(SweepEvent::Probed(Some(true))).action != SweepAction::RestoreLatest
            &&& s.after(SweepEvent::Probed(Some(true))).restored == s.restored
            &&& s.untried.len() > 0 ==> s.after(SweepEvent::Probed(Some(false))).action
                == SweepAction::RestoreLatest
            &&& s.after(SweepEvent::Probed(Some(false))).untried == s.untried
        },
        s.action == SweepAction::RestoreLatest && s.untried.len() > 0 ==> {
            let done = s.after(SweepEvent::Done(true));
            let failed = s.after(SweepEvent::Done(false));
            &&& done.restored == Some(s.untried.last())
            &&& done.action != SweepAction::RestoreLatest
            &&& failed.restored == s.restored
            &&& failed.untried == s.untried.drop_last()
            &&& s.untried.len() > 1 ==> failed.action == SweepAction::RestoreLatest
            &&& s.untried.len() == 1 ==> failed.action != SweepAction::RestoreLatest
        },
        s.action == SweepAction::RemoveCurrent ==> {
            let next = s.after(SweepEvent::Done(worked));
            &&& next.removed == s.removed + (if worked {
                1int
            } else {
                0int
            })
            &&& next.restored == s.restored
            &&& next.entries == s.entries
            &&& next.action == SweepAction::RemoveCurrent || next.action == SweepAction::Finish
        },
{
    lemma_going_on_keeps(s, s.position);
    lemma_going_on_keeps(GroupSweepView { entry_missing: true, ..s }, s.position);
    lemma_going_on_keeps(
        GroupSweepView { restored: Some(s.untried.last()), untried: s.untried.drop_last(), ..s },
        s.position,
    );
    lemma_going_on_keeps(GroupSweepView { untried: s.untried.drop_last(), ..s }, s.position);
    lemma_going_on_keeps(GroupSweepView { removed: s.removed + 1, ..s }, s.position + 1);
    lemma_going_on_keeps(s, s.position + 1);
}

proof fn lemma_going_on_keeps(s: GroupSweepView, from: int)
    ensures
        ({
            let t = s.going_on(from);
            &&& t.restored == s.restored
            &&& t.untried == s.untried
            &&& t.entries == s.entries
            &&& t.removed == s.removed
            &&& t.action == SweepAction::RemoveCurrent || t.action == SweepAction::Finish
        }),
{
}

proof fn lemma_passed_over(s: GroupSweepView, from: int)
    requires
        0 <= from <= s.entries.len(),
    ensures
        from <= s.next_position(from) <= s.entries.len(),
        forall|i: int|
            from <= i < s.next_position(from) ==> s.restored == Some(#[trigger] s.entries[i]),
        s.next_position(from) < s.entries.len() ==> s.restored != Some(
            s.entries[s.next_position(from)],
        ),
    decreases s.entries.len() - from,
{
    if from < s.entries.len() && s.restored == Some(s.entries[from]) {
        lemma_passed_over(s, from + 1);
    }
}

/// Removing goes through the directories in turn and passes over the restored one only: whichever it
/// is at next, everything in between was restored, and it ends only behind the last one.
pub proof fn law_sweeps_pass_over_the_restored_only(s: GroupSweepView, worked: bool)
    requires
        s.is_sound(),
        s.action == SweepAction::RemoveCurrent,
    ensures
        ({
            let next = s.after(SweepEvent::Done(worked));
            &&& s.position < next.position <= s.entries.len()
            &&& forall|i: int|
                s.position < i < next.position ==> s.restored == Some(#[trigger] s.entries[i])
            &&& next.action == SweepAction::Finish <==> next.position == s.entries.len()
        }),
{
    let t = GroupSweepView {
        removed: s.removed + if worked {
            1int
        } else {
            0int
        },
        ..s
    };
    lemma_passed_over(t, s.position + 1);
}

/// Sweeps with the same view agree on everything.
pub proof fn law_sweep_views_hold_every_field(a: GroupSweep, b: GroupSweep)
    requires
        a@ == b@,
    ensures
        a.entries.deep_view() == b.entries.deep_view(),
        a.untried.deep_view() == b.untried.deep_view(),
        text::opt_text(a.restored) == text::opt_text(b.restored),
        a.entry_missing == b.entry_missing,
        a.position == b.position,
        a.removed == b.removed,
        a.action == b.action,
{
}

} // verus!
