//! Frecency: a per-item log of launch times and a score that weighs recent
//! launches more than old ones.
use vstd::prelude::*;

use crate::text::str_eq;

verus! {

/// How many launch times are kept for one item.
pub const MAX_ACCESSES_PER_ITEM: usize = 100;

/// Seconds in one hour.
pub const HOUR_SECS: u64 = 3600;

/// Seconds in one day.
pub const DAY_SECS: u64 = 86400;

/// The weight that one launch at time `t` adds to a score computed at time `now`:
/// launches in the future add nothing, and the weight falls as the launch ages
/// (under an hour, a day, a week, thirty days, older).
pub open spec fn access_weight(t: u64, now: u64) -> int {
    if t > now {
        0
    } else {
        let dt = now - t;
        if dt < 3600 {
            100
        } else if dt < 86400 {
            80
        } else if dt < 7 * 86400 {
            60
        } else if dt < 30 * 86400 {
            30
        } else {
            10
        }
    }
}

/// The sum of the weights of all launch times in `ts`.
pub open spec fn weight_total(ts: Seq<u64>, now: u64) -> int
    decreases ts.len(),
{
    if ts.len() == 0 {
        0
    } else {
        weight_total(ts.drop_last(), now) + access_weight(ts.last(), now)
    }
}

/// The frecency score of `item` in the log `log` at time `now`: the weight total of
/// its launch times, 0 for an item never launched.
pub open spec fn frecency_score(log: Map<Seq<char>, Seq<u64>>, item: Seq<char>, now: u64) -> int {
    if log.contains_key(item) {
        weight_total(log[item], now)
    } else {
        0
    }
}

/// The launch times kept after a launch list has grown to `ts`: the latest
/// `MAX_ACCESSES_PER_ITEM` of them, in order.
pub open spec fn keep_recent(ts: Seq<u64>) -> Seq<u64> {
    if ts.len() > MAX_ACCESSES_PER_ITEM {
        ts.subrange(ts.len() - MAX_ACCESSES_PER_ITEM, ts.len() as int)
    } else {
        ts
    }
}

/// The launch times recorded for `item` in `log`, none when it has no entry.
pub open spec fn times_of(log: Map<Seq<char>, Seq<u64>>, item: Seq<char>) -> Seq<u64> {
    if log.contains_key(item) {
        log[item]
    } else {
        Seq::empty()
    }
}

/// The log after recording a launch of `item` at time `now`.
pub open spec fn log_after_access(log: Map<Seq<char>, Seq<u64>>, item: Seq<char>, now: u64) -> Map<
    Seq<char>,
    Seq<u64>,
> {
    log.insert(item, keep_recent(times_of(log, item).push(now)))
}

/// The map that a list of (item, launch times) pairs stands for.
pub open spec fn entries_map(e: Seq<(String, Vec<u64>)>) -> Map<Seq<char>, Seq<u64>> {
    Map::new(
        |k: Seq<char>| exists|i: int| 0 <= i < e.len() && #[trigger] e[i].0@ == k,
        |k: Seq<char>| e[choose|i: int| 0 <= i < e.len() && #[trigger] e[i].0@ == k].1@,
    )
}

/// No item occurs twice in the list.
pub open spec fn distinct_keys(e: Seq<(String, Vec<u64>)>) -> bool {
    forall|i: int, j: int|
        0 <= i < e.len() && 0 <= j < e.len() && i != j ==> #[trigger] e[i].0@ != #[trigger] e[j].0@
}

/// The launch log: for each item id, the Unix times (in seconds) at which it was
/// launched, oldest first.
pub struct AccessLog {
    entries: Vec<(String, Vec<u64>)>,
}

impl View for AccessLog {
    type V = Map<Seq<char>, Seq<u64>>;

    closed spec fn view(&self) -> Map<Seq<char>, Seq<u64>> {
        entries_map(self.entries@)
    }
}

/// Looking an entry up by its item gives its launch times.
proof fn lemma_entries_lookup(e: Seq<(String, Vec<u64>)>, i: int)
    requires
        distinct_keys(e),
        0 <= i < e.len(),
    ensures
        entries_map(e).contains_key(e[i].0@),
        entries_map(e)[e[i].0@] == e[i].1@,
{
    let k = e[i].0@;
    assert(e[i].0@ == k);
    let j = choose|j: int| 0 <= j < e.len() && #[trigger] e[j].0@ == k;
    assert(j == i);
}

/// Adding an entry for an item that the list does not hold adds it to the map.
proof fn lemma_entries_push_new(e: Seq<(String, Vec<u64>)>, p: (String, Vec<u64>))
    requires
        distinct_keys(e),
        !entries_map(e).contains_key(p.0@),
    ensures
        distinct_keys(e.push(p)),
        entries_map(e.push(p)) =~= entries_map(e).insert(p.0@, p.1@),
{
    let e2 = e.push(p);
    assert forall|i: int, j: int|
        0 <= i < e2.len() && 0 <= j < e2.len() && i != j implies #[trigger] e2[i].0@
        != #[trigger] e2[j].0@ by {
        if i == e.len() {
            assert(e[j].0@ == e2[j].0@);
        } else if j == e.len() {
            assert(e[i].0@ == e2[i].0@);
        } else {
            assert(e[i] == e2[i] && e[j] == e2[j]);
        }
    }
    let m1 = entries_map(e);
    let m2 = entries_map(e2);
    assert forall|k: Seq<char>| #[trigger] m2.contains_key(k) <==> m1.insert(
        p.0@,
        p.1@,
    ).contains_key(k) by {
        if m2.contains_key(k) {
            let i = choose|i: int| 0 <= i < e2.len() && #[trigger] e2[i].0@ == k;
            if i < e.len() {
                assert(e[i].0@ == k);
            }
        }
        if m1.contains_key(k) {
            let i = choose|i: int| 0 <= i < e.len() && #[trigger] e[i].0@ == k;
            assert(e2[i].0@ == k);
        }
        if k == p.0@ {
            assert(e2[e.len() as int].0@ == k);
        }
    }
    assert forall|k: Seq<char>| #[trigger] m2.contains_key(k) implies m2[k] == m1.insert(
        p.0@,
        p.1@,
    )[k] by {
        let i = choose|i: int| 0 <= i < e2.len() && #[trigger] e2[i].0@ == k;
        lemma_entries_lookup(e2, i);
        if i < e.len() {
            assert(e2[i] == e[i]);
            lemma_entries_lookup(e, i);
        }
    }
}

/// Removing the entry at `i` removes its item from the map.
proof fn lemma_entries_remove(e: Seq<(String, Vec<u64>)>, i: int)
    requires
        distinct_keys(e),
        0 <= i < e.len(),
    ensures
        distinct_keys(e.remove(i)),
        entries_map(e.remove(i)) =~= entries_map(e).remove(e[i].0@),
{
    let e2 = e.remove(i);
    assert forall|a: int, b: int|
        0 <= a < e2.len() && 0 <= b < e2.len() && a != b implies #[trigger] e2[a].0@
        != #[trigger] e2[b].0@ by {
        let a1 = if a < i {
            a
        } else {
            a + 1
        };
        let b1 = if b < i {
            b
        } else {
            b + 1
        };
        assert(e2[a] == e[a1] && e2[b] == e[b1]);
    }
    let m1 = entries_map(e);
    let m2 = entries_map(e2);
    let key = e[i].0@;
    assert forall|k: Seq<char>| #[trigger] m2.contains_key(k) <==> m1.remove(key).contains_key(
        k,
    ) by {
        if m2.contains_key(k) {
            let a = choose|a: int| 0 <= a < e2.len() && #[trigger] e2[a].0@ == k;
            let a1 = if a < i {
                a
            } else {
                a + 1
            };
            assert(e2[a] == e[a1]);
            assert(e[a1].0@ == k);
        }
        if m1.contains_key(k) && k != key {
            let a = choose|a: int| 0 <= a < e.len() && #[trigger] e[a].0@ == k;
            if a < i {
                assert(e2[a] == e[a]);
                assert(e2[a].0@ == k);
            } else {
                assert(a != i);
                assert(e2[a - 1] == e[a]);
                assert(e2[a - 1].0@ == k);
            }
        }
    }
    assert forall|k: Seq<char>| #[trigger] m2.contains_key(k) implies m2[k] == m1.remove(
        key,
    )[k] by {
        let a = choose|a: int| 0 <= a < e2.len() && #[trigger] e2[a].0@ == k;
        lemma_entries_lookup(e2, a);
        let a1 = if a < i {
            a
        } else {
            a + 1
        };
        assert(e2[a] == e[a1]);
        lemma_entries_lookup(e, a1);
    }
}

/// The position of the entry of `item` in `e`, if it has one.
fn find_entry(e: &Vec<(String, Vec<u64>)>, item: &str) -> (r: Option<usize>)
    ensures
        match r {
            Some(i) => i < e@.len() && e@[i as int].0@ == item@,
            None => !entries_map(e@).contains_key(item@),
        },
{
    let mut i: usize = 0;
    while i < e.len()
        invariant
            i <= e@.len(),
            forall|j: int| 0 <= j < i ==> #[trigger] e@[j].0@ != item@,
        decreases e@.len() - i,
    {
        if str_eq(e[i].0.as_str(), item) {
            return Some(i);
        }
        i = i + 1;
    }
    None
}

impl AccessLog {
    /// No item has two entries.
    #[verifier::type_invariant]
    spec fn well_formed(self) -> bool {
        distinct_keys(self.entries@)
    }

    /// An empty log.
    pub fn new() -> (r: Self)
        ensures
            r@ == Map::<Seq<char>, Seq<u64>>::empty(),
    {
        let r = AccessLog { entries: Vec::new() };
        assert(r@ =~= Map::<Seq<char>, Seq<u64>>::empty());
        r
    }

    /// The launch times recorded for `item`, `None` when it has none
    /// (`HashMap::get`).
    pub fn get(&self, item: &str) -> (r: Option<&Vec<u64>>)
        ensures
            match r {
                Some(v) => self@.contains_key(item@) && v@ == self@[item@],
                None => !self@.contains_key(item@),
            },
    {
        proof {
            use_type_invariant(self);
        }
        match find_entry(&self.entries, item) {
            Some(i) => {
                proof {
                    lemma_entries_lookup(self.entries@, i as int);
                }
                Some(&self.entries[i].1)
            },
            None => None,
        }
    }

    /// Sets the launch times of `item` to `times`, replacing any it had
    /// (`HashMap::insert`).
    pub fn insert(&mut self, item: String, times: Vec<u64>)
        ensures
            final(self)@ == old(self)@.insert(item@, times@),
    {
        proof {
            use_type_invariant(&*self);
        }
        let ghost key = item@;
        let ghost tv = times@;
        let mut e: Vec<(String, Vec<u64>)> = Vec::new();
        std::mem::swap(&mut e, &mut self.entries);
        assert(entries_map(e@) == old(self)@);
        match find_entry(&e, item.as_str()) {
            Some(i) => {
                proof {
                    lemma_entries_remove(e@, i as int);
                }
                let _old = e.remove(i);
            },
            None => {},
        }
        assert(entries_map(e@) =~= old(self)@.remove(key));
        proof {
            lemma_entries_push_new(e@, (item, times));
        }
        e.push((item, times));
        self.entries = e;
        assert(self@ =~= old(self)@.insert(key, tv));
    }

    /// The number of items that have launch times.
    pub fn len(&self) -> (r: usize)
        ensures
            r == self@.len(),
    {
        proof {
            use_type_invariant(self);
            lemma_entries_len(self.entries@);
        }
        self.entries.len()
    }

    /// The (item, launch times) pairs of the log, each item once, in no
    /// particular order.
    pub fn entries(&self) -> (r: &Vec<(String, Vec<u64>)>)
        ensures
            forall|i: int|
                0 <= i < r@.len() ==> self@.contains_key(#[trigger] r@[i].0@) && self@[r@[i].0@]
                    == r@[i].1@,
            forall|k: Seq<char>|
                #[trigger] self@.contains_key(k) ==> exists|i: int|
                    0 <= i < r@.len() && #[trigger] r@[i].0@ == k,
            r@.len() == self@.len(),
    {
        proof {
            use_type_invariant(self);
            lemma_entries_len(self.entries@);
            assert forall|i: int| 0 <= i < self.entries@.len() implies self@.contains_key(
                #[trigger] self.entries@[i].0@,
            ) && self@[self.entries@[i].0@] == self.entries@[i].1@ by {
                lemma_entries_lookup(self.entries@, i);
            }
        }
        &self.entries
    }

    /// Appends the launch time `now` to the times of `item`, keeping only the
    /// latest `MAX_ACCESSES_PER_ITEM`.
    pub fn push_access(&mut self, item: &str, now: u64)
        ensures
            final(self)@ == log_after_access(old(self)@, item@, now),
    {
        proof {
            use_type_invariant(&*self);
        }
        let mut e: Vec<(String, Vec<u64>)> = Vec::new();
        std::mem::swap(&mut e, &mut self.entries);
        assert(entries_map(e@) == old(self)@);
        let mut times: Vec<u64> = Vec::new();
        let mut key: String = String::from_str(item);
        match find_entry(&e, item) {
            Some(i) => {
                proof {
                    lemma_entries_lookup(e@, i as int);
                    lemma_entries_remove(e@, i as int);
                }
                let (k, t) = e.remove(i);
                key = k;
                times = t;
            },
            None => {},
        }
        assert(times@ == times_of(old(self)@, item@));
        assert(entries_map(e@) =~= old(self)@.remove(item@));
        times.push(now);
        if times.len() > MAX_ACCESSES_PER_ITEM {
            let kept = times.split_off(times.len() - MAX_ACCESSES_PER_ITEM);
            times = kept;
        }
        assert(times@ == keep_recent(times_of(old(self)@, item@).push(now)));
        proof {
            lemma_entries_push_new(e@, (key, times));
        }
        e.push((key, times));
        self.entries = e;
        assert(self@ =~= log_after_access(old(self)@, item@, now));
    }
}

/// The map of a list without repeated items has one key per entry.
proof fn lemma_entries_len(e: Seq<(String, Vec<u64>)>)
    requires
        distinct_keys(e),
    ensures
        entries_map(e).dom().finite(),
        entries_map(e).len() == e.len(),
    decreases e.len(),
{
    if e.len() == 0 {
        assert(entries_map(e).dom() =~= Set::<Seq<char>>::empty());
    } else {
        let last = e.len() - 1;
        let front = e.remove(last);
        lemma_entries_remove(e, last);
        assert(front =~= e.drop_last());
        lemma_entries_len(front);
        lemma_entries_lookup(e, last);
        assert(entries_map(e).dom() =~= entries_map(front).dom().insert(e[last].0@));
    }
}

#[verifier::external_type_specification]
#[verifier::external_body]
pub struct ExSystemTime(std::time::SystemTime);

/// Reads the system clock with `SystemTime::now`. Nothing is claimed of the
/// value: it is the time.
#[verifier::external_body]
fn system_time_now() -> std::time::SystemTime {
    std::time::SystemTime::now()
}

/// Converts a clock reading to whole seconds since the Unix epoch with
/// `SystemTime::duration_since`, 0 when the reading is earlier than the epoch.
/// Nothing is claimed of the value.
#[verifier::external_body]
fn unix_seconds(t: &std::time::SystemTime) -> u64 {
    t.duration_since(std::time::UNIX_EPOCH).unwrap_or_default().as_secs()
}

/// The launch history of every item, used to rank results.
pub struct FrecencyStore {
    /// For each item id, the Unix times (in seconds) of its launches.
    pub accesses: AccessLog,
}

impl Default for FrecencyStore {
    fn default() -> (r: Self)
        ensures
            r.accesses@ == Map::<Seq<char>, Seq<u64>>::empty(),
    {
        FrecencyStore { accesses: AccessLog::new() }
    }
}

impl FrecencyStore {
    /// Records a launch of `item_id` at the current time, keeping the latest
    /// `MAX_ACCESSES_PER_ITEM` launches of the item.
    pub fn record_access(&mut self, item_id: &str)
        ensures
            exists|now: u64| final(self).accesses@ == log_after_access(old(self).accesses@, item_id@, now),
    {
        let t = system_time_now();
        let now = unix_seconds(&t);
        self.record_access_at(item_id, now);
    }

    /// Records a launch of `item_id` at time `now`, keeping the latest
    /// `MAX_ACCESSES_PER_ITEM` launches of the item.
    pub fn record_access_at(&mut self, item_id: &str, now: u64)
        ensures
            final(self).accesses@ == log_after_access(old(self).accesses@, item_id@, now),
    {
        self.accesses.push_access(item_id, now);
    }

    /// Whether the frecency score of `item_id` at time `now` fits the score type.
    pub fn score_fits(&self, item_id: &str, now: u64) -> (r: bool)
        ensures
            r == (frecency_score(self.accesses@, item_id@, now) <= i32::MAX),
    {
        match self.accesses.get(item_id) {
            Some(ts) => {
                let mut total: u64 = 0;
                let mut i: usize = 0;
                while i < ts.len()
                    invariant
                        i <= ts@.len(),
                        self.accesses@.contains_key(item_id@),
                        ts@ == self.accesses@[item_id@],
                        total <= i32::MAX,
                        total == weight_total(ts@.take(i as int), now),
                    decreases ts@.len() - i,
                {
                    let t = ts[i];
                    assert(ts@.take(i + 1).drop_last() =~= ts@.take(i as int));
                    let weight: u64 = if t > now {
                        0
                    } else {
                        let dt = now - t;
                        if dt < HOUR_SECS {
                            100
                        } else if dt < DAY_SECS {
                            80
                        } else if dt < 7 * DAY_SECS {
                            60
                        } else if dt < 30 * DAY_SECS {
                            30
                        } else {
                            10
                        }
                    };
                    total = total + weight;
                    assert(total == weight_total(ts@.take(i + 1), now));
                    i = i + 1;
                    if total > 0x7fff_ffff {
                        proof {
                            lemma_weight_total_prefix(ts@, i as int, now);
                        }
                        return false;
                    }
                }
                assert(ts@.take(ts@.len() as int) =~= ts@);
                true
            },
            None => true,
        }
    }

    /// The frecency score of `item_id` at time `now`.
    pub fn get_frecency_score(&self, item_id: &str, now: u64) -> (r: i32)
        requires
            frecency_score(self.accesses@, item_id@, now) <= i32::MAX,
        ensures
            r == frecency_score(self.accesses@, item_id@, now),
    {
        let mut score: i32 = 0;
        match self.accesses.get(item_id) {
            Some(ts) => {
                let mut i: usize = 0;
                while i < ts.len()
                    invariant
                        i <= ts@.len(),
                        weight_total(ts@, now) <= i32::MAX,
                        score == weight_total(ts@.take(i as int), now),
                    decreases ts@.len() - i,
                {
                    let t = ts[i];
                    assert(ts@.take(i + 1).drop_last() =~= ts@.take(i as int));
                    proof {
                        lemma_weight_total_prefix(ts@, i + 1, now);
                    }
                    if t <= now {
                        let dt = now - t;
                        let weight: i32 = if dt < HOUR_SECS {
                            100
                        } else if dt < DAY_SECS {
                            80
                        } else if dt < 7 * DAY_SECS {
                            60
                        } else if dt < 30 * DAY_SECS {
                            30
                        } else {
                            10
                        };
                        score = score + weight;
                    }
                    i = i + 1;
                }
                assert(ts@.take(ts@.len() as int) =~= ts@);
            },
            None => {},
        }
        score
    }
}

/// Every launch adds a weight between 0 and 100.
pub proof fn lemma_weight_bounds(t: u64, now: u64)
    ensures
        0 <= access_weight(t, now) <= 100,
        t <= now ==> access_weight(t, now) >= 10,
{
}

/// A launch list never weighs less than zero.
pub proof fn lemma_weight_total_nonneg(ts: Seq<u64>, now: u64)
    ensures
        0 <= weight_total(ts, now),
    decreases ts.len(),
{
    if ts.len() > 0 {
        lemma_weight_total_nonneg(ts.drop_last(), now);
    }
}

/// A frecency score is never negative.
pub proof fn lemma_frecency_nonneg(log: Map<Seq<char>, Seq<u64>>, item: Seq<char>, now: u64)
    ensures
        0 <= frecency_score(log, item, now),
{
    if log.contains_key(item) {
        lemma_weight_total_nonneg(log[item], now);
    }
}

/// A prefix of a launch list weighs no more than the whole list.
pub proof fn lemma_weight_total_prefix(ts: Seq<u64>, k: int, now: u64)
    requires
        0 <= k <= ts.len(),
    ensures
        0 <= weight_total(ts.take(k), now) <= weight_total(ts, now),
    decreases ts.len(),
{
    if k == ts.len() {
        assert(ts.take(k) =~= ts);
        lemma_weight_total_nonneg(ts, now);
    } else {
        lemma_weight_total_prefix(ts.drop_last(), k, now);
        assert(ts.drop_last().take(k) =~= ts.take(k));
    }
}

/// An item that was never launched scores 0.
pub proof fn law_unlaunched_scores_zero(log: Map<Seq<char>, Seq<u64>>, item: Seq<char>, now: u64)
    requires
        !log.contains_key(item),
    ensures
        frecency_score(log, item, now) == 0,
{
}

/// Recent launches weigh at least as much as older ones: of two launches that both
/// lie in the past, the later one has the larger or equal weight.
pub proof fn law_weight_decays(older: u64, newer: u64, now: u64)
    requires
        older <= newer <= now,
    ensures
        access_weight(older, now) <= access_weight(newer, now),
{
}

/// A list of launch times, all at or before `earlier`, weighs no more at `later`
/// than at `earlier`.
proof fn lemma_weight_total_decays(ts: Seq<u64>, earlier: u64, later: u64)
    requires
        earlier <= later,
        forall|i: int| 0 <= i < ts.len() ==> #[trigger] ts[i] <= earlier,
    ensures
        weight_total(ts, later) <= weight_total(ts, earlier),
    decreases ts.len(),
{
    if ts.len() > 0 {
        assert forall|i: int| 0 <= i < ts.drop_last().len() implies #[trigger] ts.drop_last()[i]
            <= earlier by {
            assert(ts.drop_last()[i] == ts[i]);
        }
        lemma_weight_total_decays(ts.drop_last(), earlier, later);
        assert(ts[ts.len() - 1] <= earlier);
    }
}

/// A score never grows as time passes: when every recorded launch of `item` lies
/// at or before `earlier`, its score at any `later` time is at most its score at
/// `earlier`.
pub proof fn law_score_decays_over_time(
    log: Map<Seq<char>, Seq<u64>>,
    item: Seq<char>,
    earlier: u64,
    later: u64,
)
    requires
        earlier <= later,
        forall|i: int|
            0 <= i < times_of(log, item).len() ==> #[trigger] times_of(log, item)[i] <= earlier,
    ensures
        frecency_score(log, item, later) <= frecency_score(log, item, earlier),
{
    if log.contains_key(item) {
        assert(times_of(log, item) == log[item]);
        lemma_weight_total_decays(log[item], earlier, later);
    }
}

/// Each past launch adds between 10 and 100 to the score and each future one adds
/// nothing, so a list of launch times scores at most 100 per entry.
pub proof fn law_score_bounds(ts: Seq<u64>, now: u64)
    ensures
        0 <= weight_total(ts, now) <= 100 * ts.len(),
        (forall|i: int| 0 <= i < ts.len() ==> #[trigger] ts[i] <= now) ==> weight_total(ts, now)
            >= 10 * ts.len(),
    decreases ts.len(),
{
    if ts.len() > 0 {
        law_score_bounds(ts.drop_last(), now);
        lemma_weight_bounds(ts.last(), now);
        if forall|i: int| 0 <= i < ts.len() ==> #[trigger] ts[i] <= now {
            assert forall|i: int| 0 <= i < ts.drop_last().len() implies #[trigger] ts.drop_last()[i]
                <= now by {
                assert(ts.drop_last()[i] == ts[i]);
            }
            assert(ts[ts.len() - 1] <= now);
        }
    }
}

/// Recording a launch keeps at most `MAX_ACCESSES_PER_ITEM` times for the item,
/// ends its list with the new time, keeps the times before it as the latest ones
/// of the old list, and leaves every other item as it was.
pub proof fn law_record_access_keeps_recent(
    log: Map<Seq<char>, Seq<u64>>,
    item: Seq<char>,
    now: u64,
    other: Seq<char>,
)
    ensures
        log_after_access(log, item, now).contains_key(item),
        log_after_access(log, item, now)[item].len() <= MAX_ACCESSES_PER_ITEM,
        log_after_access(log, item, now)[item].len() == if times_of(log, item).len()
            < MAX_ACCESSES_PER_ITEM {
            times_of(log, item).len() + 1
        } else {
            MAX_ACCESSES_PER_ITEM as nat
        },
        log_after_access(log, item, now)[item].last() == now,
        log_after_access(log, item, now)[item].drop_last().is_suffix_of(times_of(log, item)),
        other != item ==> (log_after_access(log, item, now).contains_key(other)
            == log.contains_key(other)),
        other != item && log.contains_key(other) ==> log_after_access(log, item, now)[other]
            == log[other],
{
    let old_ts = times_of(log, item);
    let grown = old_ts.push(now);
    let kept = keep_recent(grown);
    if grown.len() > MAX_ACCESSES_PER_ITEM {
        let from = grown.len() - MAX_ACCESSES_PER_ITEM;
        assert(kept.drop_last() =~= old_ts.subrange(from, old_ts.len() as int));
        assert(old_ts.subrange(from, old_ts.len() as int) =~= old_ts.skip(old_ts.len() - (
        kept.len() - 1)));
    } else {
        assert(kept.drop_last() =~= old_ts);
        assert(old_ts.skip(0) =~= old_ts);
    }
}

/// Launching an item that has fewer than `MAX_ACCESSES_PER_ITEM` recorded launches
/// raises its score at that moment by exactly 100.
pub proof fn law_launch_boosts_score(log: Map<Seq<char>, Seq<u64>>, item: Seq<char>, now: u64)
    requires
        times_of(log, item).len() < MAX_ACCESSES_PER_ITEM,
    ensures
        frecency_score(log_after_access(log, item, now), item, now) == frecency_score(
            log,
            item,
            now,
        ) + 100,
{
    let old_ts = times_of(log, item);
    assert(old_ts.push(now).drop_last() =~= old_ts);
    if !log.contains_key(item) {
        assert(weight_total(Seq::<u64>::empty(), now) == 0);
    }
}

} // verus!
