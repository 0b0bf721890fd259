//! Tracking of the processes the dock started, keyed by the slot they belong to.

use vstd::prelude::*;
use crate::icons::{split_lines, text_lines};
use crate::text::{chars_of, views};

verus! {

#[verifier::external_type_specification]
#[verifier::external_body]
pub struct ExInstant(std::time::Instant);

/// Calls `Instant::now`: the current time of the monotonic clock.
#[verifier::external_body]
fn instant_now() -> (r: std::time::Instant) {
    std::time::Instant::now()
}

/// Calls `Instant::elapsed`: the time passed since `since` on the monotonic
/// clock. The clock is outside the program, so nothing is stated of the value.
#[verifier::external_body]
fn elapsed_since(since: &std::time::Instant) -> (r: std::time::Duration) {
    since.elapsed()
}

/// Calls `Duration::as_millis`: the whole milliseconds of a duration. The
/// duration is opaque here, so nothing is stated of the value.
#[verifier::external_body]
fn whole_millis(d: &std::time::Duration) -> (r: u128) {
    d.as_millis()
}

/// What a watched process was started for: a slot of the dock, or app `.1` of
/// the folder at slot `.0`. Folder apps are kept apart from slots.
#[derive(Debug, Clone, Copy, PartialEq, Eq, Structural)]
pub enum ProcessKey {
    Slot(usize),
    FolderApp(usize, usize),
}

/// Associates a dock entry index with a running process PID.
pub struct ProcessMonitor {
    watched: Vec<(ProcessKey, u32)>,
    last_poll: std::time::Instant,
    poll_interval_ms: u64,
}

/// No key occurs twice.
pub open spec fn distinct_keys(s: Seq<(ProcessKey, u32)>) -> bool {
    forall|i: int, j: int| 0 <= i < s.len() && 0 <= j < s.len() && i != j ==> s[i].0 != s[j].0
}

/// The pairs as a map from key to process id.
pub open spec fn as_map(s: Seq<(ProcessKey, u32)>) -> Map<ProcessKey, u32>
    decreases s.len(),
{
    if s.len() == 0 {
        Map::empty()
    } else {
        as_map(s.drop_last()).insert(s.last().0, s.last().1)
    }
}

/// The pairs whose liveness flag is set, in order.
pub open spec fn kept(s: Seq<(ProcessKey, u32)>, alive: Seq<bool>) -> Seq<(ProcessKey, u32)>
    decreases s.len(),
{
    if s.len() == 0 || alive.len() == 0 {
        seq![]
    } else {
        let rest = kept(s.drop_last(), alive.drop_last());
        if alive.last() { rest.push(s.last()) } else { rest }
    }
}

/// The keys of the pairs whose liveness flag is clear, in order.
pub open spec fn dropped_keys(s: Seq<(ProcessKey, u32)>, alive: Seq<bool>) -> Seq<ProcessKey>
    decreases s.len(),
{
    if s.len() == 0 || alive.len() == 0 {
        seq![]
    } else {
        let rest = dropped_keys(s.drop_last(), alive.drop_last());
        if alive.last() { rest } else { rest.push(s.last().0) }
    }
}

impl ProcessMonitor {
    #[verifier::type_invariant]
    spec fn inv(&self) -> bool {
        distinct_keys(self.watched@)
    }

    /// The watched processes, keyed by slot.
    pub closed spec fn watched(&self) -> Seq<(ProcessKey, u32)> {
        self.watched@
    }

    /// The instant of the last poll (of the monitor's creation before any).
    pub closed spec fn last_poll(&self) -> std::time::Instant {
        self.last_poll
    }

    /// The pause between two polls, in milliseconds.
    pub closed spec fn interval(&self) -> u64 {
        self.poll_interval_ms
    }

    /// Nothing watched; polls at most every 1500 ms.
    pub fn new() -> (r: Self)
        ensures
            r.watched() == Seq::<(ProcessKey, u32)>::empty(),
            distinct_keys(r.watched()),
            r.interval() == 1500,
    {
        ProcessMonitor { watched: Vec::new(), last_poll: instant_now(), poll_interval_ms: 1500 }
    }

    /// Tracks `pid` for the slot `entry_index`, replacing the process watched
    /// for it before.
    pub fn register(&mut self, entry_index: usize, pid: u32)
        ensures
            as_map(final(self).watched()) == as_map(old(self).watched()).insert(ProcessKey::Slot(entry_index), pid),
            distinct_keys(final(self).watched()),
            final(self).interval() == old(self).interval(),
            final(self).last_poll() == old(self).last_poll(),
    {
        self.watch(ProcessKey::Slot(entry_index), pid);
    }

    /// Tracks `pid` for app `app_index` of the folder at slot `folder_index`,
    /// replacing the process watched for it before.
    pub fn register_folder_app(&mut self, folder_index: usize, app_index: usize, pid: u32)
        ensures
            as_map(final(self).watched()) == as_map(old(self).watched()).insert(
                ProcessKey::FolderApp(folder_index, app_index),
                pid,
            ),
            distinct_keys(final(self).watched()),
            final(self).interval() == old(self).interval(),
            final(self).last_poll() == old(self).last_poll(),
    {
        self.watch(ProcessKey::FolderApp(folder_index, app_index), pid);
    }

    fn watch(&mut self, key: ProcessKey, pid: u32)
        ensures
            as_map(final(self).watched()) == as_map(old(self).watched()).insert(key, pid),
            distinct_keys(final(self).watched()),
            final(self).interval() == old(self).interval(),
            final(self).last_poll() == old(self).last_poll(),
    {
        proof { use_type_invariant(&*self); }
        let mut watched: Vec<(ProcessKey, u32)> = Vec::new();
        std::mem::swap(&mut watched, &mut self.watched);
        let ghost before = watched@;
        let mut found = false;
        let mut k: usize = 0;
        for i in 0..watched.len()
            invariant
                watched@ == before,
                found ==> k < watched.len() && watched@[k as int].0 == key,
                !found ==> forall|j: int| 0 <= j < i ==> watched@[j].0 != key,
        {
            if !found && watched[i].0 == key {
                found = true;
                k = i;
            }
        }
        if found {
            watched.set(k, (key, pid));
            proof { lemma_map_update(before, k as int, pid); }
        } else {
            watched.push((key, pid));
            assert(watched@.drop_last() == before);
            assert(distinct_keys(watched@));
        }
        self.watched = watched;
    }

    /// Whether `elapsed_ms` milliseconds since the last poll call for a new poll.
    pub fn poll_due(&self, elapsed_ms: u64) -> (r: bool)
        ensures
            r == (elapsed_ms >= self.interval()),
    {
        elapsed_ms >= self.poll_interval_ms
    }

    /// Whether the poll interval has passed since the last poll.
    pub fn should_poll(&self) -> bool {
        let ms = whole_millis(&elapsed_since(&self.last_poll));
        let elapsed: u64 = if ms > u64::MAX as u128 { u64::MAX } else { ms as u64 };
        self.poll_due(elapsed)
    }

    /// Asks `pid_is_alive` about each watched process, stops tracking those
    /// that ended and answers their keys; the keys stay distinct, so each ended
    /// process is answered once (see [`poll_splits_watched`]).
    pub fn poll_dead<F: Fn(u32) -> bool>(&mut self, pid_is_alive: F) -> (dead: Vec<ProcessKey>)
        requires
            forall|pid: u32| call_requires(pid_is_alive, (pid,)),
        ensures
            exists|alive: Seq<bool>| {
                &&& alive.len() == old(self).watched().len()
                &&& forall|i: int| 0 <= i < alive.len() ==> call_ensures(pid_is_alive,
                    (old(self).watched()[i].1,), #[trigger] alive[i])
                &&& final(self).watched() == kept(old(self).watched(), alive)
                &&& dead@ == dropped_keys(old(self).watched(), alive)
            },
            dead@.no_duplicates(),
            distinct_keys(final(self).watched()),
            final(self).interval() == old(self).interval(),
    {
        proof { use_type_invariant(&*self); }
        let mut watched: Vec<(ProcessKey, u32)> = Vec::new();
        std::mem::swap(&mut watched, &mut self.watched);
        let ghost before = watched@;
        assert(before == old(self).watched());
        let mut remaining: Vec<(ProcessKey, u32)> = Vec::new();
        let mut dead: Vec<ProcessKey> = Vec::new();
        let ghost mut alive: Seq<bool> = seq![];
        for i in 0..watched.len()
            invariant
                watched@ == before,
                distinct_keys(before),
                forall|pid: u32| call_requires(pid_is_alive, (pid,)),
                alive.len() == i,
                forall|j: int| 0 <= j < i ==> call_ensures(pid_is_alive, (before[j].1,), #[trigger] alive[j]),
                remaining@ == kept(before.take(i as int), alive),
                dead@ == dropped_keys(before.take(i as int), alive),
                forall|a: int, b: int| 0 <= a < remaining@.len() && 0 <= b < remaining@.len() && a != b
                    ==> remaining@[a].0 != remaining@[b].0,
                forall|a: int| 0 <= a < remaining@.len() ==> exists|j: int| 0 <= j < i && before[j] == #[trigger] remaining@[a],
        {
            let (idx, pid) = watched[i];
            let is_alive = pid_is_alive(pid);
            proof {
                assert(before.take(i + 1).drop_last() == before.take(i as int));
                assert(alive.push(is_alive).drop_last() == alive);
            }
            if is_alive {
                proof {
                    assert forall|a: int| 0 <= a < remaining@.len() implies remaining@[a].0 != idx by {
                        let j = choose|j: int| 0 <= j < i && before[j] == remaining@[a];
                        assert(before[j].0 != before[i as int].0);
                    }
                }
                remaining.push((idx, pid));
            } else {
                dead.push(idx);
            }
            proof { alive = alive.push(is_alive); }
        }
        assert(before.take(before.len() as int) == before);
        self.watched = remaining;
        self.last_poll = instant_now();
        assert(self.watched() == kept(before, alive));
        assert(exists|a: Seq<bool>| {
            &&& a.len() == before.len()
            &&& forall|i: int| 0 <= i < a.len() ==> call_ensures(pid_is_alive, (before[i].1,), #[trigger] a[i])
            &&& self.watched() == kept(before, a)
            &&& dead@ == dropped_keys(before, a)
        }) by {
            assert(alive.len() == before.len());
        }
        proof {
            use_type_invariant(&*self);
            lemma_dropped_unique(before, alive);
        }
        dead
    }
}

proof fn lemma_map_update(s: Seq<(ProcessKey, u32)>, k: int, pid: u32)
    requires
        distinct_keys(s),
        0 <= k < s.len(),
    ensures
        distinct_keys(s.update(k, (s[k].0, pid))),
        as_map(s.update(k, (s[k].0, pid))) == as_map(s).insert(s[k].0, pid),
    decreases s.len(),
{
    let t = s.update(k, (s[k].0, pid));
    assert forall|i: int, j: int| 0 <= i < t.len() && 0 <= j < t.len() && i != j implies t[i].0 != t[j].0 by {
        assert(t[i].0 == s[i].0 && t[j].0 == s[j].0);
    }
    if k == s.len() - 1 {
        assert(t.drop_last() == s.drop_last());
        assert(as_map(s.drop_last()).insert(s[k].0, s[k].1).insert(s[k].0, pid) == as_map(s.drop_last()).insert(s[k].0, pid));
    } else {
        lemma_map_update(s.drop_last(), k, pid);
        assert(t.drop_last() == s.drop_last().update(k, (s[k].0, pid)));
        assert(s.last().0 != s[k].0);
        assert(as_map(s.drop_last()).insert(s[k].0, pid).insert(s.last().0, s.last().1)
            == as_map(s.drop_last()).insert(s.last().0, s.last().1).insert(s[k].0, pid));
    }
}

proof fn lemma_as_map_keys(s: Seq<(ProcessKey, u32)>, k: ProcessKey)
    ensures
        as_map(s).dom().contains(k) <==> exists|i: int| 0 <= i < s.len() && (#[trigger] s[i]).0 == k,
    decreases s.len(),
{
    if s.len() > 0 {
        lemma_as_map_keys(s.drop_last(), k);
        if as_map(s.drop_last()).dom().contains(k) {
            let i = choose|i: int| 0 <= i < s.drop_last().len() && (#[trigger] s.drop_last()[i]).0 == k;
            assert(s[i].0 == k);
        }
        if exists|i: int| 0 <= i < s.len() && (#[trigger] s[i]).0 == k {
            let i = choose|i: int| 0 <= i < s.len() && (#[trigger] s[i]).0 == k;
            if i < s.len() - 1 {
                assert(s.drop_last()[i].0 == k);
            }
        }
    }
}

proof fn lemma_dropped_unique(s: Seq<(ProcessKey, u32)>, alive: Seq<bool>)
    requires
        distinct_keys(s),
        alive.len() == s.len(),
    ensures
        dropped_keys(s, alive).no_duplicates(),
    decreases s.len(),
{
    if s.len() > 0 {
        let t = s.drop_last();
        let a = alive.drop_last();
        let x = s.last();
        assert(distinct_keys(t));
        lemma_dropped_unique(t, a);
        if !alive.last() {
            let d = dropped_keys(t, a);
            assert(!d.contains(x.0)) by {
                poll_splits_watched(t, a, x.0);
                lemma_as_map_keys(t, x.0);
                if exists|i: int| 0 <= i < t.len() && (#[trigger] t[i]).0 == x.0 {
                    let i = choose|i: int| 0 <= i < t.len() && (#[trigger] t[i]).0 == x.0;
                    assert(s[i].0 == s[s.len() - 1].0);
                }
            }
            assert(dropped_keys(s, alive) == d.push(x.0));
            assert forall|i: int, j: int| 0 <= i < j < d.push(x.0).len() implies d.push(x.0)[i] != d.push(x.0)[j] by {
                if j == d.len() {
                    assert(d.push(x.0)[i] == d[i]);
                }
            }
        }
    }
}

proof fn lemma_as_map_at(s: Seq<(ProcessKey, u32)>, j: int)
    requires
        distinct_keys(s),
        0 <= j < s.len(),
    ensures
        as_map(s).dom().contains(s[j].0),
        as_map(s)[s[j].0] == s[j].1,
    decreases s.len(),
{
    let t = s.drop_last();
    assert(distinct_keys(t));
    if j < s.len() - 1 {
        lemma_as_map_at(t, j);
        assert(t[j] == s[j]);
        assert(s[j].0 != s.last().0);
    }
}

proof fn lemma_dropped_at(s: Seq<(ProcessKey, u32)>, alive: Seq<bool>, j: int)
    requires
        distinct_keys(s),
        alive.len() == s.len(),
        0 <= j < s.len(),
    ensures
        dropped_keys(s, alive).contains(s[j].0) <==> !alive[j],
    decreases s.len(),
{
    let t = s.drop_last();
    let a = alive.drop_last();
    let x = s.last();
    assert(distinct_keys(t));
    let d = dropped_keys(t, a);
    if j < s.len() - 1 {
        lemma_dropped_at(t, a, j);
        assert(t[j] == s[j] && a[j] == alive[j]);
        assert(s[j].0 != x.0);
        if !alive.last() {
            assert(dropped_keys(s, alive) == d.push(x.0));
            assert(d.push(x.0).contains(s[j].0) <==> d.contains(s[j].0)) by {
                if d.push(x.0).contains(s[j].0) {
                    let k = choose|k: int| 0 <= k < d.push(x.0).len() && d.push(x.0)[k] == s[j].0;
                    assert(d[k] == s[j].0);
                }
                if d.contains(s[j].0) {
                    let k = choose|k: int| 0 <= k < d.len() && d[k] == s[j].0;
                    assert(d.push(x.0)[k] == s[j].0);
                }
            }
        }
    } else {
        poll_splits_watched(t, a, x.0);
        lemma_as_map_keys(t, x.0);
        assert(!d.contains(x.0)) by {
            if exists|i: int| 0 <= i < t.len() && (#[trigger] t[i]).0 == x.0 {
                let i = choose|i: int| 0 <= i < t.len() && (#[trigger] t[i]).0 == x.0;
                assert(s[i].0 == s[s.len() - 1].0);
            }
        }
        if !alive.last() {
            assert(dropped_keys(s, alive) == d.push(x.0));
            assert(d.push(x.0)[d.len() as int] == x.0);
        } else {
            assert(dropped_keys(s, alive) == d);
        }
    }
}

/// A process watched under `key` is reported by the next poll exactly when the
/// probe answered that it ended: after a registration, the watched list holds
/// `key` with the registered `pid`, and a poll over it drops `key` exactly when
/// the probe's answer for that place is false.
pub proof fn registered_key_reported_iff_ended(
    before: Seq<(ProcessKey, u32)>,
    key: ProcessKey,
    pid: u32,
    after: Seq<(ProcessKey, u32)>,
    alive: Seq<bool>,
)
    requires
        distinct_keys(after),
        as_map(after) == as_map(before).insert(key, pid),
        alive.len() == after.len(),
    ensures
        exists|j: int| 0 <= j < after.len() && after[j] == (key, pid)
            && (dropped_keys(after, alive).contains(key) <==> !alive[j]),
{
    lemma_as_map_keys(after, key);
    assert(as_map(after).dom().contains(key));
    let j = choose|j: int| 0 <= j < after.len() && (#[trigger] after[j]).0 == key;
    lemma_as_map_at(after, j);
    lemma_dropped_at(after, alive, j);
    assert(after[j] == (key, pid));
}

/// A poll splits the watched slots: each one either stays watched or is
/// reported dead, never both, and no other slot is reported.
pub proof fn poll_splits_watched(s: Seq<(ProcessKey, u32)>, alive: Seq<bool>, k: ProcessKey)
    requires
        distinct_keys(s),
        alive.len() == s.len(),
    ensures
        as_map(s).dom().contains(k) <==> (as_map(kept(s, alive)).dom().contains(k) || dropped_keys(s, alive).contains(k)),
        !(as_map(kept(s, alive)).dom().contains(k) && dropped_keys(s, alive).contains(k)),
    decreases s.len(),
{
    if s.len() > 0 {
        let t = s.drop_last();
        let a = alive.drop_last();
        let x = s.last();
        assert(distinct_keys(t));
        poll_splits_watched(t, a, k);
        poll_splits_watched(t, a, x.0);
        lemma_as_map_keys(t, x.0);
        assert(!as_map(t).dom().contains(x.0)) by {
            if exists|i: int| 0 <= i < t.len() && (#[trigger] t[i]).0 == x.0 {
                let i = choose|i: int| 0 <= i < t.len() && (#[trigger] t[i]).0 == x.0;
                assert(s[i].0 == s[s.len() - 1].0);
            }
        }
        assert(as_map(s).dom() == as_map(t).dom().insert(x.0));
        if alive.last() {
            assert(dropped_keys(s, alive) == dropped_keys(t, a));
            assert(kept(s, alive) == kept(t, a).push(x));
            assert(kept(t, a).push(x).drop_last() == kept(t, a));
            assert(as_map(kept(s, alive)).dom() == as_map(kept(t, a)).dom().insert(x.0));
        } else {
            assert(dropped_keys(s, alive) == dropped_keys(t, a).push(x.0));
            assert(kept(s, alive) == kept(t, a));
            assert(dropped_keys(t, a).push(x.0).contains(k) <==> (dropped_keys(t, a).contains(k) || k == x.0)) by {
                if dropped_keys(t, a).push(x.0).contains(k) {
                    let j = choose|j: int| 0 <= j < dropped_keys(t, a).push(x.0).len() && dropped_keys(t, a).push(x.0)[j] == k;
                    if j < dropped_keys(t, a).len() {
                        assert(dropped_keys(t, a)[j] == k);
                    }
                }
                if dropped_keys(t, a).contains(k) {
                    let j = choose|j: int| 0 <= j < dropped_keys(t, a).len() && dropped_keys(t, a)[j] == k;
                    assert(dropped_keys(t, a).push(x.0)[j] == k);
                }
                if k == x.0 {
                    assert(dropped_keys(t, a).push(x.0)[dropped_keys(t, a).len() as int] == k);
                }
            }
        }
    }
}

// ── Process status ───────────────────────────────────────────────────────────

/// `l` starts with `State:`.
pub open spec fn is_state_line(l: Seq<char>) -> bool {
    l.len() >= 6 && l.take(6) == "State:"@
}

/// Whether the first `State:` line of a process status text holds a `Z`
/// (a zombie); false without such a line.
pub open spec fn zombie_status(lines: Seq<Seq<char>>) -> bool
    decreases lines.len(),
{
    if lines.len() == 0 {
        false
    } else if is_state_line(lines[0]) {
        lines[0].contains('Z')
    } else {
        zombie_status(lines.drop_first())
    }
}

fn starts_with_state(l: &Vec<char>) -> (r: bool)
    ensures
        r == is_state_line(l@),
{
    let p = chars_of("State:");
    proof { reveal_strlit("State:"); }
    if l.len() < 6 {
        return false;
    }
    for j in 0..6
        invariant
            l@.len() >= 6,
            p@ == "State:"@,
            p@.len() == 6,
            forall|k: int| 0 <= k < j ==> l@[k] == p@[k],
    {
        if l[j] != p[j] {
            assert(l@.take(6)[j as int] != p@[j as int]);
            return false;
        }
    }
    assert(l@.take(6) == p@);
    true
}

fn has_zed(l: &Vec<char>) -> (r: bool)
    ensures
        r == l@.contains('Z'),
{
    for j in 0..l.len()
        invariant
            forall|k: int| 0 <= k < j ==> l@[k] != 'Z',
    {
        if l[j] == 'Z' {
            assert(l@[j as int] == 'Z');
            return true;
        }
    }
    false
}

/// Whether the status text of a process (the content of `/proc/<pid>/status`)
/// marks it a zombie (see [`zombie_status`]).
pub fn status_is_zombie(content: &str) -> (r: bool)
    ensures
        r == zombie_status(text_lines(content@)),
{
    let lines = split_lines(content);
    let ghost ls = views(lines@);
    assert(ls.skip(0) == ls);
    for i in 0..lines.len()
        invariant
            ls == views(lines@),
            ls == text_lines(content@),
            zombie_status(ls) == zombie_status(ls.skip(i as int)),
    {
        let l = chars_of(lines[i].as_str());
        assert(ls.skip(i as int)[0] == l@);
        assert(ls.skip(i as int).drop_first() == ls.skip(i + 1));
        if starts_with_state(&l) {
            return has_zed(&l);
        }
    }
    assert(ls.skip(ls.len() as int) == Seq::<Seq<char>>::empty());
    false
}

} // verus!
