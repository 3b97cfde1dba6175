//! Per-device polling backoff: truncated binary exponential.
//!
//! A device that fails is marked into the table; each marking doubles the
//! number of polling cycles the device will be skipped, up to `2 ^
//! MAX_BACKOFF_CYCLES`. Visiting a device each cycle counts its entry down;
//! the first visit after the counter expired removes the entry, so a device
//! that recovers for one poll starts its backoff history afresh.

use vstd::prelude::*;

verus! {

/// The backoff exponent is capped here, so a device is skipped for at most
/// `2 ^ MAX_BACKOFF_CYCLES` cycles per marking.
pub const MAX_BACKOFF_CYCLES: usize = 4;

/// `2 ^ m` for the exponents the table can hold (`m <= MAX_BACKOFF_CYCLES`).
pub open spec fn backoff_width(m: usize) -> usize {
    if m == 0 {
        1
    } else if m == 1 {
        2
    } else if m == 2 {
        4
    } else if m == 3 {
        8
    } else {
        16
    }
}

fn backoff_width_exec(m: usize) -> (r: usize)
    ensures
        r == backoff_width(m),
{
    if m == 0 {
        1
    } else if m == 1 {
        2
    } else if m == 2 {
        4
    } else if m == 3 {
        8
    } else {
        16
    }
}

/// A device's backoff record: `(current_backoff, max_backoff)`.
pub type BackoffEntry = (usize, usize);

/// The record after one more offline marking: a fresh record skips one cycle
/// (counter 2); an existing record grows its exponent by one, capped, and
/// restarts the counter at `1 + 2 ^ exponent`.
pub open spec fn spec_mark_entry(e: Option<BackoffEntry>) -> BackoffEntry {
    match e {
        None => (2, 0),
        Some((_current, max_exp)) => {
            let m2: usize = if max_exp >= MAX_BACKOFF_CYCLES {
                MAX_BACKOFF_CYCLES
            } else {
                (max_exp + 1) as usize
            };
            ((1 + backoff_width(m2)) as usize, m2)
        },
    }
}

/// One visit of a device: what the visit returns, and the record afterwards
/// (`None` meaning no record). A missing record means the device is active; a
/// zero counter was observed expired on an earlier visit, so the record is
/// dropped; otherwise the counter is decremented and the device stays in
/// backoff while the counter is still positive.
pub open spec fn spec_visit_entry(e: Option<BackoffEntry>) -> (Option<usize>, Option<
    BackoffEntry,
>) {
    match e {
        None => (None, None),
        Some((current, max_exp)) => {
            if current == 0 {
                (None, None)
            } else if current == 1 {
                (None, Some((0, max_exp)))
            } else {
                (Some((current - 1) as usize), Some(((current - 1) as usize, max_exp)))
            }
        },
    }
}

/// The record for `id` in a backoff table, if any.
pub open spec fn spec_entry(m: Map<u8, BackoffEntry>, id: u8) -> Option<BackoffEntry> {
    if m.dom().contains(id) {
        Some(m[id])
    } else {
        None
    }
}

/// The map a sequence of key-value pairs denotes.
pub open spec fn map_of(s: Seq<(u8, BackoffEntry)>) -> Map<u8, BackoffEntry>
    decreases s.len(),
{
    if s.len() == 0 {
        Map::empty()
    } else {
        map_of(s.drop_last()).insert(s.last().0, s.last().1)
    }
}

/// Key-value pairs with no key repeated.
pub open spec fn unique_keys(s: Seq<(u8, BackoffEntry)>) -> bool {
    forall|i: int, j: int| 0 <= i < j < s.len() ==> s[i].0 != s[j].0
}

proof fn lemma_map_of_absent(s: Seq<(u8, BackoffEntry)>, id: u8)
    requires
        forall|i: int| 0 <= i < s.len() ==> s[i].0 != id,
    ensures
        !map_of(s).dom().contains(id),
    decreases s.len(),
{
    if s.len() > 0 {
        lemma_map_of_absent(s.drop_last(), id);
    }
}

proof fn lemma_map_of_get(s: Seq<(u8, BackoffEntry)>, i: int)
    requires
        unique_keys(s),
        0 <= i < s.len(),
    ensures
        map_of(s).dom().contains(s[i].0),
        map_of(s)[s[i].0] == s[i].1,
    decreases s.len(),
{
    if i < s.len() - 1 {
        lemma_map_of_get(s.drop_last(), i);
    }
}

proof fn lemma_map_of_update(s: Seq<(u8, BackoffEntry)>, i: int, v: BackoffEntry)
    requires
        unique_keys(s),
        0 <= i < s.len(),
    ensures
        map_of(s.update(i, (s[i].0, v))) =~= map_of(s).insert(s[i].0, v),
    decreases s.len(),
{
    let id = s[i].0;
    let s2 = s.update(i, (id, v));
    if i == s.len() - 1 {
        assert(s2.drop_last() =~= s.drop_last());
    } else {
        assert(s2.drop_last() =~= s.drop_last().update(i, (id, v)));
        lemma_map_of_update(s.drop_last(), i, v);
        // The final insert is of a different key, so it commutes with the
        // insert for `id`.
        assert(s.last().0 != id);
    }
}

proof fn lemma_map_of_remove(s: Seq<(u8, BackoffEntry)>, i: int)
    requires
        unique_keys(s),
        0 <= i < s.len(),
    ensures
        map_of(s.remove(i)) =~= map_of(s).remove(s[i].0),
    decreases s.len(),
{
    let id = s[i].0;
    if i == s.len() - 1 {
        assert(s.remove(i) =~= s.drop_last());
        assert(forall|j: int| 0 <= j < s.drop_last().len() ==> s.drop_last()[j].0 != id);
        lemma_map_of_absent(s.drop_last(), id);
    } else {
        assert(s.remove(i).drop_last() =~= s.drop_last().remove(i));
        assert(s.remove(i).last() == s.last());
        lemma_map_of_remove(s.drop_last(), i);
        assert(s.last().0 != id);
    }
}

proof fn lemma_map_of_push(s: Seq<(u8, BackoffEntry)>, id: u8, v: BackoffEntry)
    ensures
        map_of(s.push((id, v))) =~= map_of(s).insert(id, v),
{
    assert(s.push((id, v)).drop_last() =~= s);
}

/// The backoff table: which devices are currently skipped, and for how much
/// longer.
pub struct BackoffState {
    backoff_devices: Vec<(u8, BackoffEntry)>,
}

impl View for BackoffState {
    type V = Map<u8, BackoffEntry>;

    closed spec fn view(&self) -> Map<u8, BackoffEntry> {
        map_of(self.backoff_devices@)
    }
}

impl BackoffState {
    /// No key is recorded twice.
    pub closed spec fn wf(&self) -> bool {
        unique_keys(self.backoff_devices@)
    }

    /// An empty table: every device is eligible for polling.
    pub fn new() -> (r: BackoffState)
        ensures
            r.wf(),
            r@ == Map::<u8, BackoffEntry>::empty(),
    {
        BackoffState { backoff_devices: Vec::new() }
    }

    /// The index of the record for `id`, if one exists.
    fn find(&self, id: u8) -> (r: Option<usize>)
        ensures
            match r {
                Some(i) => i < self.backoff_devices@.len() && self.backoff_devices@[i as int].0
                    == id,
                None => forall|j: int|
                    0 <= j < self.backoff_devices@.len() ==> self.backoff_devices@[j].0 != id,
            },
    {
        let mut j: usize = 0;
        while j < self.backoff_devices.len()
            invariant
                0 <= j <= self.backoff_devices@.len(),
                forall|t: int| 0 <= t < j ==> self.backoff_devices@[t].0 != id,
            decreases self.backoff_devices@.len() - j,
        {
            if self.backoff_devices[j].0 == id {
                return Some(j);
            }
            j = j + 1;
        }
        None
    }

    /// Record one more consecutive failure of `id`: insert a fresh record or
    /// grow the existing one, as [`spec_mark_entry`] describes.
    pub fn mark_device_backoff(&mut self, id: u8)
        requires
            old(self).wf(),
        ensures
            final(self).wf(),
            final(self)@ == old(self)@.insert(id, spec_mark_entry(spec_entry(old(self)@, id))),
    {
        let ghost s0 = self.backoff_devices@;
        match self.find(id) {
            Some(i) => {
                let (_, (_current, max_exp)) = self.backoff_devices[i];
                proof {
                    lemma_map_of_get(s0, i as int);
                }
                let m2 = if max_exp >= MAX_BACKOFF_CYCLES {
                    MAX_BACKOFF_CYCLES
                } else {
                    max_exp + 1
                };
                let entry = (1 + backoff_width_exec(m2), m2);
                self.backoff_devices[i] = (id, entry);
                proof {
                    lemma_map_of_update(s0, i as int, entry);
                }
            },
            None => {
                proof {
                    lemma_map_of_absent(s0, id);
                }
                self.backoff_devices.push((id, (2, 0)));
                proof {
                    lemma_map_of_push(s0, id, (2, 0));
                }
            },
        }
    }

    /// Count down the record for `id` at the start of a polling cycle.
    /// `Some(remaining)` means the device is still in backoff and must be
    /// skipped this cycle; `None` means it is eligible for polling. The first
    /// visit that finds an expired counter forgets the record entirely, per
    /// [`spec_visit_entry`].
    pub fn visit_device(&mut self, id: u8) -> (r: Option<usize>)
        requires
            old(self).wf(),
        ensures
            final(self).wf(),
            r == spec_visit_entry(spec_entry(old(self)@, id)).0,
            final(self)@ == match spec_visit_entry(spec_entry(old(self)@, id)).1 {
                Some(e) => old(self)@.insert(id, e),
                None => old(self)@.remove(id),
            },
    {
        let ghost s0 = self.backoff_devices@;
        match self.find(id) {
            Some(i) => {
                let (_, (current, max_exp)) = self.backoff_devices[i];
                proof {
                    lemma_map_of_get(s0, i as int);
                }
                if current == 0 {
                    self.backoff_devices.remove(i);
                    proof {
                        lemma_map_of_remove(s0, i as int);
                    }
                    return None;
                }
                let current = current - 1;
                self.backoff_devices[i] = (id, (current, max_exp));
                proof {
                    lemma_map_of_update(s0, i as int, (current, max_exp));
                }
                if current == 0 {
                    None
                } else {
                    Some(current)
                }
            },
            None => {
                proof {
                    lemma_map_of_absent(s0, id);
                    assert(old(self)@.remove(id) =~= old(self)@);
                }
                None
            },
        }
    }
}

/// The record after `n` consecutive offline markings of a device that was
/// not in the table before and is not visited in between.
pub open spec fn spec_marks(n: nat) -> BackoffEntry
    decreases n,
{
    if n <= 1 {
        spec_mark_entry(None)
    } else {
        spec_mark_entry(Some(spec_marks((n - 1) as nat)))
    }
}

/// The record left after `k` consecutive visits.
pub open spec fn entry_after_visits(e: Option<BackoffEntry>, k: nat) -> Option<BackoffEntry>
    decreases k,
{
    if k == 0 {
        e
    } else {
        spec_visit_entry(entry_after_visits(e, (k - 1) as nat)).1
    }
}

/// What the `k`-th consecutive visit returns (`k` counted from 1).
pub open spec fn visit_number(e: Option<BackoffEntry>, k: nat) -> Option<usize>
    recommends
        k >= 1,
{
    spec_visit_entry(entry_after_visits(e, (k - 1) as nat)).0
}

proof fn lemma_visits_count_down(e: BackoffEntry, k: nat)
    requires
        1 <= k < e.0,
    ensures
        entry_after_visits(Some(e), k) == Some(((e.0 - k) as usize, e.1)),
        visit_number(Some(e), k) == Some((e.0 - k) as usize),
    decreases k,
{
    if k > 1 {
        lemma_visits_count_down(e, (k - 1) as nat);
    }
}

/// Backoff monotonicity: after `n` consecutive offline markings without an
/// intervening successful visit cycle, the device is skipped (`visit`
/// returns `Some`) for exactly `min(1 + 2 ^ min(n - 1, 4), 17) - 1`
/// consecutive cycles, then polled again (`None`) on the next cycle; and a
/// marking of a device with no record restarts at a single skip cycle.
pub proof fn lemma_backoff_monotonicity(n: nat, k: nat)
    requires
        n >= 1,
        k >= 1,
    ensures
        spec_marks(n).0 == 1 + backoff_width(spec_marks(n).1),
        spec_marks(n).1 == if n - 1 < MAX_BACKOFF_CYCLES {
            n - 1
        } else {
            MAX_BACKOFF_CYCLES as int
        },
        k < spec_marks(n).0 ==> visit_number(Some(spec_marks(n)), k) == Some(
            (spec_marks(n).0 - k) as usize,
        ),
        k == spec_marks(n).0 ==> visit_number(Some(spec_marks(n)), k) == None::<usize>,
        spec_mark_entry(None) == (2usize, 0usize),
    decreases n,
{
    if n > 1 {
        lemma_backoff_monotonicity((n - 1) as nat, k);
    }
    let e = spec_marks(n);
    if 1 <= k < e.0 {
        lemma_visits_count_down(e, k);
    }
    if k == e.0 {
        lemma_visits_count_down(e, (k - 1) as nat);
    }
}

} // verus!
