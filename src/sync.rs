//! Copy plans between the backup side and the game side, the report of a
//! sync pass, and a model of what the copies do to the files.
use vstd::prelude::*;
use crate::text::{push_str, string_of};

verus! {

/// Which way a sync pass copies.
#[derive(Debug, Clone, Copy, PartialEq, Eq, Structural)]
pub enum SyncDirection {
    /// From the backup into the game's location (before launch).
    ToGame,
    /// From the game's location into the backup (after exit).
    ToBackup,
}

/// One file copy: `from` is read and written to `to`.
pub struct CopyStep {
    pub from: String,
    pub to: String,
}

impl CopyStep {
    pub open spec fn view(&self) -> (Seq<char>, Seq<char>) {
        (self.from@, self.to@)
    }
}

/// `part` appended to the path `base`, with `sep` between them unless
/// `base` is empty or already ends in a separator (`/` or `sep`).
pub open spec fn joined(base: Seq<char>, part: Seq<char>, sep: char) -> Seq<char> {
    if base.len() == 0 {
        part
    } else if base.last() == '/' || base.last() == sep {
        base + part
    } else {
        base.push(sep) + part
    }
}

/// Appends `part` to the path `base`.
pub fn join_path(base: &str, part: &str, sep: char) -> (r: String)
    ensures
        r@ == joined(base@, part@, sep),
{
    let mut out = string_of(base);
    let n = base.unicode_len();
    if n > 0 {
        let last = base.get_char(n - 1);
        assert(base@.last() == last);
        if last != '/' && last != sep {
            out.push(sep);
        }
    } else {
        assert(out@ == Seq::<char>::empty());
    }
    push_str(&mut out, part);
    if n == 0 {
        assert(Seq::<char>::empty() + part@ == part@);
    }
    out
}

/// Where the backup of `file` for application `app_id` lives.
pub open spec fn backup_path_of(root: Seq<char>, app_id: Seq<char>, file: Seq<char>, sep: char) -> Seq<char> {
    joined(joined(root, app_id, sep), file, sep)
}

pub fn backup_path(root: &str, app_id: &str, file: &str, sep: char) -> (r: String)
    ensures
        r@ == backup_path_of(root@, app_id@, file@, sep),
{
    let dir = join_path(root, app_id, sep);
    join_path(dir.as_str(), file, sep)
}

/// The copy that moves a file between its backup path and its game path.
pub open spec fn step_of(direction: SyncDirection, backup: Seq<char>, game: Seq<char>) -> (Seq<char>, Seq<char>) {
    match direction {
        SyncDirection::ToGame => (backup, game),
        SyncDirection::ToBackup => (game, backup),
    }
}

pub fn copy_step(direction: SyncDirection, backup: String, game: String) -> (r: CopyStep)
    ensures
        r.view() == step_of(direction, backup@, game@),
{
    match direction {
        SyncDirection::ToGame => CopyStep { from: backup, to: game },
        SyncDirection::ToBackup => CopyStep { from: game, to: backup },
    }
}

/// The outcome of a sync pass: each step attempted lands in exactly one of
/// the two lists, in the order attempted.
pub struct SyncReport {
    pub copied: Vec<CopyStep>,
    pub failed: Vec<CopyStep>,
}

impl SyncReport {
    pub fn new() -> (r: SyncReport)
        ensures
            r.copied@.len() == 0,
            r.failed@.len() == 0,
    {
        SyncReport { copied: Vec::new(), failed: Vec::new() }
    }

    /// Notes the outcome of one attempted copy.
    pub fn record(&mut self, step: CopyStep, succeeded: bool)
        ensures
            succeeded ==> final(self).copied@ == old(self).copied@.push(step) && final(self).failed@ == old(self).failed@,
            !succeeded ==> final(self).failed@ == old(self).failed@.push(step) && final(self).copied@ == old(self).copied@,
    {
        if succeeded {
            self.copied.push(step);
        } else {
            self.failed.push(step);
        }
    }

    pub fn has_failures(&self) -> (r: bool)
        ensures
            r == (self.failed@.len() > 0),
    {
        self.failed.len() > 0
    }
}

/// Files by path, with their bytes.
pub type Files = Map<Seq<char>, Seq<u8>>;

/// A byte-for-byte copy: the destination takes the source's bytes; when the
/// source is missing the copy fails and nothing changes.
pub open spec fn apply_copy(fs: Files, step: (Seq<char>, Seq<char>)) -> Files {
    if fs.contains_key(step.0) {
        fs.insert(step.1, fs[step.0])
    } else {
        fs
    }
}

/// The copies of `steps` made one after another.
pub open spec fn apply_plan(fs: Files, steps: Seq<(Seq<char>, Seq<char>)>) -> Files
    decreases steps.len(),
{
    if steps.len() == 0 {
        fs
    } else {
        apply_copy(apply_plan(fs, steps.drop_last()), steps.last())
    }
}

/// The copies of a pass over files given as (backup path, game path).
pub open spec fn plan_of(direction: SyncDirection, pairs: Seq<(Seq<char>, Seq<char>)>) -> Seq<(Seq<char>, Seq<char>)> {
    pairs.map_values(|p: (Seq<char>, Seq<char>)| step_of(direction, p.0, p.1))
}

/// The copies of a plan, as (source, destination) pairs.
pub open spec fn steps_view(s: Seq<CopyStep>) -> Seq<(Seq<char>, Seq<char>)> {
    s.map_values(|c: CopyStep| c.view())
}

/// Restoring a file and then backing it up again, with nothing changed in
/// between, leaves the backup with the bytes it had.
pub proof fn lemma_restore_then_backup(fs: Files, backup: Seq<char>, game: Seq<char>)
    requires
        fs.contains_key(backup),
    ensures
        ({
            let after = apply_copy(apply_copy(fs, step_of(SyncDirection::ToGame, backup, game)),
                step_of(SyncDirection::ToBackup, backup, game));
            after.contains_key(backup) && after[backup] == fs[backup]
        }),
{
}

/// What `fs` holds at `path`.
pub open spec fn at(fs: Files, path: Seq<char>) -> Option<Seq<u8>> {
    if fs.contains_key(path) {
        Some(fs[path])
    } else {
        None
    }
}

/// No step writes a path that a step reads, and no two steps write the same path.
pub open spec fn steps_independent(steps: Seq<(Seq<char>, Seq<char>)>) -> bool {
    &&& forall|i: int, j: int| 0 <= i < steps.len() && 0 <= j < steps.len() ==> #[trigger] steps[i].0 != #[trigger] steps[j].1
    &&& forall|i: int, j: int| 0 <= i < j < steps.len() ==> #[trigger] steps[i].1 != #[trigger] steps[j].1
}

/// No file's backup path is any file's game path, and no two files share a
/// backup path or a game path.
pub open spec fn paths_distinct(pairs: Seq<(Seq<char>, Seq<char>)>) -> bool {
    &&& forall|i: int, j: int| 0 <= i < pairs.len() && 0 <= j < pairs.len() ==> #[trigger] pairs[i].0 != #[trigger] pairs[j].1
    &&& forall|i: int, j: int| 0 <= i < j < pairs.len() ==> #[trigger] pairs[i].0 != #[trigger] pairs[j].0
    &&& forall|i: int, j: int| 0 <= i < j < pairs.len() ==> #[trigger] pairs[i].1 != #[trigger] pairs[j].1
}

/// A restore pass, the game (which changes nothing), then a backup pass.
pub open spec fn cycle(fs: Files, pairs: Seq<(Seq<char>, Seq<char>)>) -> Files {
    apply_plan(apply_plan(fs, plan_of(SyncDirection::ToGame, pairs)), plan_of(SyncDirection::ToBackup, pairs))
}

proof fn lemma_plan_effect(fs: Files, steps: Seq<(Seq<char>, Seq<char>)>)
    requires
        steps_independent(steps),
    ensures
        forall|k: int| 0 <= k < steps.len() ==> #[trigger] at(apply_plan(fs, steps), steps[k].1) == if at(fs, steps[k].0) is Some {
            at(fs, steps[k].0)
        } else {
            at(fs, steps[k].1)
        },
        forall|p: Seq<char>| (forall|k: int| 0 <= k < steps.len() ==> steps[k].1 != p) ==> #[trigger] at(apply_plan(fs, steps), p) == at(fs, p),
    decreases steps.len(),
{
    if steps.len() > 0 {
        let init = steps.drop_last();
        let n = steps.len() - 1;
        assert forall|i: int, j: int| 0 <= i < init.len() && 0 <= j < init.len() implies #[trigger] init[i].0 != #[trigger] init[j].1 by {
            assert(steps[i].0 != steps[j].1);
        }
        assert forall|i: int, j: int| 0 <= i < j < init.len() implies #[trigger] init[i].1 != #[trigger] init[j].1 by {
            assert(steps[i].1 != steps[j].1);
        }
        lemma_plan_effect(fs, init);
        let mid = apply_plan(fs, init);
        assert(forall|k: int| 0 <= k < init.len() ==> init[k].1 != steps[n].0 && init[k] == steps[k]);
        assert(at(mid, steps[n].0) == at(fs, steps[n].0));
        assert(forall|k: int| 0 <= k < init.len() ==> init[k].1 != steps[n].1) by {
            assert forall|k: int| 0 <= k < init.len() implies init[k].1 != steps[n].1 by {
                assert(steps[k].1 != steps[n].1);
            }
        }
        assert(at(mid, steps[n].1) == at(fs, steps[n].1));
        assert(apply_plan(fs, steps) == apply_copy(mid, steps[n]));
        assert forall|k: int| 0 <= k < steps.len() implies #[trigger] at(apply_plan(fs, steps), steps[k].1) == if at(fs, steps[k].0) is Some {
            at(fs, steps[k].0)
        } else {
            at(fs, steps[k].1)
        } by {
            if k < n {
                assert(steps[k].1 != steps[n].1);
                assert(init[k] == steps[k]);
                assert(at(mid, init[k].1) == if at(fs, init[k].0) is Some { at(fs, init[k].0) } else { at(fs, init[k].1) });
                assert(at(apply_copy(mid, steps[n]), steps[k].1) == at(mid, steps[k].1));
            }
        }
        assert forall|p: Seq<char>| (forall|k: int| 0 <= k < steps.len() ==> steps[k].1 != p) implies #[trigger] at(apply_plan(fs, steps), p) == at(fs, p) by {
            assert forall|k: int| 0 <= k < init.len() implies init[k].1 != p by {
                assert(init[k] == steps[k]);
            }
            assert(at(mid, p) == at(fs, p));
            assert(steps[n].1 != p);
            assert(at(apply_copy(mid, steps[n]), p) == at(mid, p));
        }
    }
}

/// After a full cycle each file's backup and game copies hold what its
/// backup held before, or its game copy when there was no backup: a backup
/// that was there comes back byte for byte.
pub proof fn lemma_cycle_effect(fs: Files, pairs: Seq<(Seq<char>, Seq<char>)>)
    requires
        paths_distinct(pairs),
    ensures
        forall|k: int| 0 <= k < pairs.len() ==> {
            let want = if at(fs, pairs[k].0) is Some { at(fs, pairs[k].0) } else { at(fs, pairs[k].1) };
            &&& #[trigger] at(cycle(fs, pairs), pairs[k].0) == want
            &&& at(cycle(fs, pairs), pairs[k].1) == want
        },
{
    let r = plan_of(SyncDirection::ToGame, pairs);
    let b = plan_of(SyncDirection::ToBackup, pairs);
    assert(forall|k: int| 0 <= k < pairs.len() ==> #[trigger] r[k] == (pairs[k].0, pairs[k].1));
    assert(forall|k: int| 0 <= k < pairs.len() ==> #[trigger] b[k] == (pairs[k].1, pairs[k].0));
    assert(steps_independent(r)) by {
        assert forall|i: int, j: int| 0 <= i < r.len() && 0 <= j < r.len() implies #[trigger] r[i].0 != #[trigger] r[j].1 by {
            assert(pairs[i].0 != pairs[j].1);
        }
        assert forall|i: int, j: int| 0 <= i < j < r.len() implies #[trigger] r[i].1 != #[trigger] r[j].1 by {
            assert(pairs[i].1 != pairs[j].1);
        }
    }
    assert(steps_independent(b)) by {
        assert forall|i: int, j: int| 0 <= i < b.len() && 0 <= j < b.len() implies #[trigger] b[i].0 != #[trigger] b[j].1 by {
            assert(pairs[j].0 != pairs[i].1);
        }
        assert forall|i: int, j: int| 0 <= i < j < b.len() implies #[trigger] b[i].1 != #[trigger] b[j].1 by {
            assert(pairs[i].0 != pairs[j].0);
        }
    }
    lemma_plan_effect(fs, r);
    let fs1 = apply_plan(fs, r);
    lemma_plan_effect(fs1, b);
    assert forall|k: int| 0 <= k < pairs.len() implies {
        let want = if at(fs, pairs[k].0) is Some { at(fs, pairs[k].0) } else { at(fs, pairs[k].1) };
        &&& #[trigger] at(cycle(fs, pairs), pairs[k].0) == want
        &&& at(cycle(fs, pairs), pairs[k].1) == want
    } by {
        assert(at(fs1, r[k].1) == if at(fs, r[k].0) is Some { at(fs, r[k].0) } else { at(fs, r[k].1) });
        assert forall|j: int| 0 <= j < r.len() implies r[j].1 != pairs[k].0 by {
            assert(pairs[k].0 != pairs[j].1);
        }
        assert(at(fs1, pairs[k].0) == at(fs, pairs[k].0));
        assert(at(apply_plan(fs1, b), b[k].1) == if at(fs1, b[k].0) is Some { at(fs1, b[k].0) } else { at(fs1, b[k].1) });
        assert forall|j: int| 0 <= j < b.len() implies b[j].1 != pairs[k].1 by {
            assert(pairs[j].0 != pairs[k].1);
        }
        assert(at(apply_plan(fs1, b), pairs[k].1) == at(fs1, pairs[k].1));
    }
}

/// Running the restore, game, backup cycle a second time with nothing
/// changed in between leaves every backup as the first cycle left it,
/// provided no two of the files' paths coincide.
pub proof fn lemma_cycle_idempotent(fs: Files, pairs: Seq<(Seq<char>, Seq<char>)>)
    requires
        paths_distinct(pairs),
    ensures
        forall|k: int| 0 <= k < pairs.len() ==> at(cycle(cycle(fs, pairs), pairs), #[trigger] pairs[k].0) == at(cycle(fs, pairs), pairs[k].0),
{
    lemma_cycle_effect(fs, pairs);
    lemma_cycle_effect(cycle(fs, pairs), pairs);
    assert forall|k: int| 0 <= k < pairs.len() implies at(cycle(cycle(fs, pairs), pairs), #[trigger] pairs[k].0) == at(cycle(fs, pairs), pairs[k].0) by {
        let fs2 = cycle(fs, pairs);
        assert(at(fs2, pairs[k].0) == at(fs2, pairs[k].1));
    }
}

} // verus!
