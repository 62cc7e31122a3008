//! The policy of the three memory tiers: how many records each may hold,
//! which records leave a full tier, how a search fills its results from the
//! tiers in turn, how accesses are counted and when a record moves up.
use vstd::prelude::*;
use vstd::multiset::Multiset;
use vstd::string::StrSliceExecFns;
use crate::memory::record::MemoryRecord;
use crate::text::{text_before, text_lt, lemma_text_before_order};
use crate::clock::{
    CALENDAR_MAX_SECS, CALENDAR_MIN_SECS, Instant, RFC3339_MAX_SECS, rfc3339_instant, hours_between, parse_rfc3339,
    utc_now, whole_hours_between, whole_hours_of,
};

verus! {

/// The hot tier holds at most this many records.
pub const HOT_MEMORY_MAX_CAPACITY: usize = 50;

/// The warm tier holds at most this many records.
pub const WARM_MEMORY_MAX_CAPACITY: usize = 500;

/// How many records must leave a tier that holds `count` of at most
/// `capacity`.
pub open spec fn overflow(count: nat, capacity: nat) -> nat {
    if count > capacity {
        (count - capacity) as nat
    } else {
        0
    }
}

/// How many of the oldest records must move out of a tier that holds
/// `count` records of at most `capacity`.
pub fn records_to_migrate(count: usize, capacity: usize) -> (n: usize)
    ensures
        n == overflow(count as nat, capacity as nat),
{
    if count > capacity {
        count - capacity
    } else {
        0
    }
}

/// Moving out the overflow leaves a tier at its capacity or below, and
/// moves nothing out of a tier within it.
pub proof fn lemma_migration_respects_capacity(count: nat, capacity: nat)
    ensures
        count - overflow(count, capacity) <= capacity,
        count - overflow(count, capacity) == if count < capacity { count } else { capacity },
        count <= capacity ==> overflow(count, capacity) == 0,
{
}

// ---------------------------------------------------------------------------
// Oldest records first

/// `x` placed before the first record of `t` that was not created strictly
/// before it.
pub open spec fn insert_by_creation(t: Seq<MemoryRecord>, x: MemoryRecord) -> Seq<MemoryRecord>
    decreases t.len(),
{
    if t.len() == 0 {
        seq![x]
    } else if !text_before(t[0].created_at@, x.created_at@) {
        seq![x] + t
    } else {
        seq![t[0]] + insert_by_creation(t.skip(1), x)
    }
}

/// The records of `s` in order of their creation text, records created at
/// the same text keeping their order (a stable sort).
pub open spec fn sort_by_creation(s: Seq<MemoryRecord>) -> Seq<MemoryRecord>
    decreases s.len(),
{
    if s.len() == 0 {
        Seq::empty()
    } else {
        insert_by_creation(sort_by_creation(s.skip(1)), s[0])
    }
}

/// No record of `s` was created strictly before one that precedes it.
pub open spec fn sorted_by_creation(s: Seq<MemoryRecord>) -> bool {
    forall|i: int, j: int|
        0 <= i < j < s.len() ==> !text_before(#[trigger] s[j].created_at@, #[trigger] s[i].created_at@)
}

/// The `limit` records of `s` created first.
pub open spec fn oldest(s: Seq<MemoryRecord>, limit: nat) -> Seq<MemoryRecord> {
    let sorted = sort_by_creation(s);
    if limit < sorted.len() {
        sorted.take(limit as int)
    } else {
        sorted
    }
}

proof fn lemma_insert_at(t: Seq<MemoryRecord>, x: MemoryRecord, j: int)
    requires
        0 <= j <= t.len(),
        forall|k: int| 0 <= k < j ==> text_before(#[trigger] t[k].created_at@, x.created_at@),
        j < t.len() ==> !text_before(t[j].created_at@, x.created_at@),
    ensures
        insert_by_creation(t, x) == t.insert(j, x),
    decreases t.len(),
{
    if t.len() == 0 {
        assert(t.insert(j, x) =~= seq![x]);
    } else if j == 0 {
        assert(t.insert(0, x) =~= seq![x] + t);
    } else {
        assert forall|k: int| 0 <= k < j - 1 implies text_before(#[trigger] t.skip(1)[k].created_at@, x.created_at@) by {
            assert(t.skip(1)[k] == t[k + 1]);
        }
        lemma_insert_at(t.skip(1), x, j - 1);
        assert(t.insert(j, x) =~= seq![t[0]] + t.skip(1).insert(j - 1, x));
    }
}

/// Where `x` goes among the sorted records `t`.
fn insertion_point(t: &Vec<MemoryRecord>, x: &MemoryRecord) -> (j: usize)
    ensures
        j <= t.len(),
        forall|k: int| 0 <= k < j ==> text_before(#[trigger] t@[k].created_at@, x.created_at@),
        j < t.len() ==> !text_before(t@[j as int].created_at@, x.created_at@),
{
    let mut j: usize = 0;
    while j < t.len() && text_lt(t[j].created_at.as_str(), x.created_at.as_str())
        invariant
            j <= t.len(),
            forall|k: int| 0 <= k < j ==> text_before(#[trigger] t@[k].created_at@, x.created_at@),
        decreases t.len() - j,
    {
        j = j + 1;
    }
    j
}

/// The `limit` records created first, oldest first; records created at the
/// same text keep their order.
pub fn select_oldest(records: Vec<MemoryRecord>, limit: usize) -> (out: Vec<MemoryRecord>)
    ensures
        out@ == oldest(records@, limit as nat),
{
    let ghost s = records@;
    let mut rest = records;
    let mut sorted: Vec<MemoryRecord> = Vec::new();
    assert(s.skip(s.len() as int) =~= Seq::<MemoryRecord>::empty());
    assert(s.take(s.len() as int) =~= s);
    while rest.len() > 0
        invariant
            rest.len() <= s.len(),
            rest@ == s.take(rest.len() as int),
            sorted@ == sort_by_creation(s.skip(rest.len() as int)),
        decreases rest.len(),
    {
        let ghost k = rest.len() - 1;
        let x = rest.pop().unwrap();
        assert(x == s[k]);
        assert(rest@ =~= s.take(k));
        let j = insertion_point(&sorted, &x);
        proof {
            lemma_insert_at(sorted@, x, j as int);
            assert(s.skip(k).skip(1) =~= s.skip(k + 1));
            assert(s.skip(k)[0] == s[k]);
        }
        sorted.insert(j, x);
    }
    assert(s.skip(0) =~= s);
    sorted.truncate(limit);
    sorted
}

proof fn lemma_insert_contents(t: Seq<MemoryRecord>, x: MemoryRecord)
    ensures
        insert_by_creation(t, x).len() == t.len() + 1,
        insert_by_creation(t, x).to_multiset() == t.to_multiset().insert(x),
        forall|e: MemoryRecord| #[trigger] insert_by_creation(t, x).contains(e) ==> e == x || t.contains(e),
    decreases t.len(),
{
    broadcast use vstd::seq_lib::group_to_multiset_ensures;
    let r = insert_by_creation(t, x);
    if t.len() == 0 {
        assert(r =~= Seq::<MemoryRecord>::empty().push(x));
        assert forall|e: MemoryRecord| #[trigger] r.contains(e) implies e == x || t.contains(e) by {
            let i = choose|i: int| 0 <= i < r.len() && r[i] == e;
        }
    } else if !text_before(t[0].created_at@, x.created_at@) {
        vstd::seq_lib::lemma_multiset_commutative(seq![x], t);
        assert(seq![x] =~= Seq::<MemoryRecord>::empty().push(x));
        assert forall|e: MemoryRecord| #[trigger] r.contains(e) implies e == x || t.contains(e) by {
            let i = choose|i: int| 0 <= i < r.len() && r[i] == e;
            if i > 0 {
                assert(r[i] == t[i - 1]);
            }
        }
    } else {
        let tail = t.skip(1);
        lemma_insert_contents(tail, x);
        vstd::seq_lib::lemma_multiset_commutative(seq![t[0]], insert_by_creation(tail, x));
        vstd::seq_lib::lemma_multiset_commutative(seq![t[0]], tail);
        assert(seq![t[0]] + tail =~= t);
        assert(seq![t[0]] =~= Seq::<MemoryRecord>::empty().push(t[0]));
        assert forall|e: MemoryRecord| #[trigger] r.contains(e) implies e == x || t.contains(e) by {
            let i = choose|i: int| 0 <= i < r.len() && r[i] == e;
            if i > 0 {
                assert(r[i] == insert_by_creation(tail, x)[i - 1]);
                assert(insert_by_creation(tail, x).contains(e));
                if e != x {
                    let m = choose|m: int| 0 <= m < tail.len() && tail[m] == e;
                    assert(t[m + 1] == e);
                }
            } else {
                assert(t[0] == e);
            }
        }
        assert(r.to_multiset() =~= t.to_multiset().insert(x));
    }
}

proof fn lemma_insert_sorted(t: Seq<MemoryRecord>, x: MemoryRecord)
    requires
        sorted_by_creation(t),
    ensures
        sorted_by_creation(insert_by_creation(t, x)),
    decreases t.len(),
{
    let r = insert_by_creation(t, x);
    if t.len() == 0 {
    } else if !text_before(t[0].created_at@, x.created_at@) {
        assert forall|i: int, j: int| 0 <= i < j < r.len() implies !text_before(
            #[trigger] r[j].created_at@,
            #[trigger] r[i].created_at@,
        ) by {
            if i == 0 {
                assert(r[j] == t[j - 1]);
                lemma_text_before_order(t[j - 1].created_at@, x.created_at@, t[0].created_at@);
                lemma_text_before_order(x.created_at@, t[0].created_at@, t[j - 1].created_at@);
                lemma_text_before_order(t[j - 1].created_at@, t[0].created_at@, x.created_at@);
                if j - 1 > 0 {
                    assert(!text_before(t[j - 1].created_at@, t[0].created_at@));
                }
            } else {
                assert(r[i] == t[i - 1]);
                assert(r[j] == t[j - 1]);
            }
        }
    } else {
        let tail = t.skip(1);
        assert(sorted_by_creation(tail)) by {
            assert forall|i: int, j: int| 0 <= i < j < tail.len() implies !text_before(
                #[trigger] tail[j].created_at@,
                #[trigger] tail[i].created_at@,
            ) by {
                assert(tail[i] == t[i + 1]);
                assert(tail[j] == t[j + 1]);
            }
        }
        lemma_insert_sorted(tail, x);
        lemma_insert_contents(tail, x);
        let ins = insert_by_creation(tail, x);
        assert forall|i: int, j: int| 0 <= i < j < r.len() implies !text_before(
            #[trigger] r[j].created_at@,
            #[trigger] r[i].created_at@,
        ) by {
            if i == 0 {
                let e = r[j];
                assert(e == ins[j - 1]);
                assert(ins.contains(e));
                if e == x {
                    lemma_text_before_order(t[0].created_at@, x.created_at@, x.created_at@);
                } else {
                    let m = choose|m: int| 0 <= m < tail.len() && tail[m] == e;
                    assert(t[m + 1] == e);
                }
            } else {
                assert(r[i] == ins[i - 1]);
                assert(r[j] == ins[j - 1]);
            }
        }
    }
}

/// Sorting by creation puts the records in order and keeps exactly the
/// records it was given.
pub proof fn lemma_sort_by_creation(s: Seq<MemoryRecord>)
    ensures
        sorted_by_creation(sort_by_creation(s)),
        sort_by_creation(s).to_multiset() == s.to_multiset(),
        sort_by_creation(s).len() == s.len(),
    decreases s.len(),
{
    broadcast use vstd::seq_lib::group_to_multiset_ensures;
    if s.len() > 0 {
        lemma_sort_by_creation(s.skip(1));
        lemma_insert_sorted(sort_by_creation(s.skip(1)), s[0]);
        lemma_insert_contents(sort_by_creation(s.skip(1)), s[0]);
        assert(s =~= seq![s[0]] + s.skip(1));
        vstd::seq_lib::lemma_multiset_commutative(seq![s[0]], s.skip(1));
        assert(seq![s[0]] =~= Seq::<MemoryRecord>::empty().push(s[0]));
        assert(s.to_multiset() =~= s.skip(1).to_multiset().insert(s[0]));
    } else {
        assert(s.to_multiset() =~= Multiset::empty());
    }
}

/// The oldest records come out oldest first, as many as asked for or all of
/// them, each one of the records given.
pub proof fn lemma_oldest(s: Seq<MemoryRecord>, limit: nat)
    ensures
        sorted_by_creation(oldest(s, limit)),
        oldest(s, limit).len() == if limit < s.len() { limit } else { s.len() },
        oldest(s, limit).to_multiset().subset_of(s.to_multiset()),
{
    broadcast use vstd::seq_lib::group_to_multiset_ensures;
    lemma_sort_by_creation(s);
    let sorted = sort_by_creation(s);
    if limit < sorted.len() {
        let t = sorted.take(limit as int);
        assert forall|i: int, j: int| 0 <= i < j < t.len() implies !text_before(
            #[trigger] t[j].created_at@,
            #[trigger] t[i].created_at@,
        ) by {
            assert(t[i] == sorted[i]);
            assert(t[j] == sorted[j]);
        }
        assert(sorted =~= t + sorted.skip(limit as int));
        vstd::seq_lib::lemma_multiset_commutative(t, sorted.skip(limit as int));
    }
}


// ---------------------------------------------------------------------------
// Adding a memory to the tiers

/// The store hands over, for a tier asked for its oldest records, records
/// that the tier holds (the rows its scan reaches), at least as many as
/// must leave it.
pub open spec fn scan_covers(tier: Multiset<MemoryRecord>, capacity: nat, seen: Seq<MemoryRecord>) -> bool {
    &&& seen.to_multiset().subset_of(tier)
    &&& seen.len() >= overflow(tier.len(), capacity)
}

/// A tier and the next one after the tier's overflow has moved on: the
/// `overflow` oldest of the records `seen` of it are written to the next
/// tier and deleted from it (by identifier, which removes exactly them where
/// identifiers are distinct).
pub open spec fn migrate_tier(
    tier: Multiset<MemoryRecord>,
    next: Multiset<MemoryRecord>,
    capacity: nat,
    seen: Seq<MemoryRecord>,
) -> (Multiset<MemoryRecord>, Multiset<MemoryRecord>) {
    let moved = oldest(seen, overflow(tier.len(), capacity)).to_multiset();
    (tier.sub(moved), next.add(moved))
}

/// The hot, warm and cold tiers after a memory is added: it is written to
/// the hot tier, the hot tier's overflow moves to the warm one (the store
/// showing `hot_seen` of the hot tier), then the warm tier's to the cold one
/// (the store showing `warm_seen` of the warm tier).
pub open spec fn tiers_after_add(
    hot: Multiset<MemoryRecord>,
    warm: Multiset<MemoryRecord>,
    cold: Multiset<MemoryRecord>,
    record: MemoryRecord,
    hot_seen: Seq<MemoryRecord>,
    warm_seen: Seq<MemoryRecord>,
) -> (Multiset<MemoryRecord>, Multiset<MemoryRecord>, Multiset<MemoryRecord>) {
    let (h, w) = migrate_tier(hot.insert(record), warm, HOT_MEMORY_MAX_CAPACITY as nat, hot_seen);
    let (w2, c) = migrate_tier(w, cold, WARM_MEMORY_MAX_CAPACITY as nat, warm_seen);
    (h, w2, c)
}

/// Moving a tier's overflow on leaves it at its capacity or below, and
/// loses or duplicates no record between the two tiers.
pub proof fn lemma_migrate_tier(
    tier: Multiset<MemoryRecord>,
    next: Multiset<MemoryRecord>,
    capacity: nat,
    seen: Seq<MemoryRecord>,
)
    requires
        scan_covers(tier, capacity, seen),
    ensures
        migrate_tier(tier, next, capacity, seen).0.len() <= capacity,
        migrate_tier(tier, next, capacity, seen).0.len() == tier.len() - overflow(tier.len(), capacity),
        migrate_tier(tier, next, capacity, seen).1.len() == next.len() + overflow(tier.len(), capacity),
        migrate_tier(tier, next, capacity, seen).0.add(migrate_tier(tier, next, capacity, seen).1) == tier.add(
            next,
        ),
{
    broadcast use vstd::seq_lib::group_to_multiset_ensures;
    let k = overflow(tier.len(), capacity);
    let moved_seq = oldest(seen, k);
    lemma_oldest(seen, k);
    let moved = moved_seq.to_multiset();
    assert(moved.len() == k);
    assert(moved.subset_of(tier)) by {
        assert forall|x: MemoryRecord| moved.count(x) <= tier.count(x) by {
            assert(moved.count(x) <= seen.to_multiset().count(x));
            assert(seen.to_multiset().count(x) <= tier.count(x));
        }
    }
    assert(tier.sub(moved).len() == tier.len() - moved.len());
    assert(tier.sub(moved).add(next.add(moved)) =~= tier.add(next));
}

/// The store's scan of a tier reads `seen`: records of the tier, as many
/// as it holds up to the scan's `limit`.
pub open spec fn scanned(tier: Multiset<MemoryRecord>, limit: nat, seen: Seq<MemoryRecord>) -> bool {
    &&& seen.to_multiset().subset_of(tier)
    &&& seen.len() == if tier.len() < limit { tier.len() } else { limit }
}

/// Adding a memory to tiers within their capacities (at most
/// `HOT_MEMORY_MAX_CAPACITY` hot records and `WARM_MEMORY_MAX_CAPACITY`
/// warm ones) keeps them so, and the three tiers then hold exactly the
/// records they held and the new one: each in one tier, none lost, none
/// added. The records that move are `select_oldest` of what the store's
/// scan of the tier read (up to the tier's capacity), as many as
/// `records_to_migrate` asks.
pub proof fn lemma_add_memory_keeps_tiers(
    hot: Multiset<MemoryRecord>,
    warm: Multiset<MemoryRecord>,
    cold: Multiset<MemoryRecord>,
    record: MemoryRecord,
    hot_seen: Seq<MemoryRecord>,
    warm_seen: Seq<MemoryRecord>,
)
    requires
        hot.len() <= HOT_MEMORY_MAX_CAPACITY,
        warm.len() <= WARM_MEMORY_MAX_CAPACITY,
        scanned(hot.insert(record), HOT_MEMORY_MAX_CAPACITY as nat, hot_seen),
        scanned(
            migrate_tier(hot.insert(record), warm, HOT_MEMORY_MAX_CAPACITY as nat, hot_seen).1,
            WARM_MEMORY_MAX_CAPACITY as nat,
            warm_seen,
        ),
    ensures
        tiers_after_add(hot, warm, cold, record, hot_seen, warm_seen).0.len() <= HOT_MEMORY_MAX_CAPACITY,
        tiers_after_add(hot, warm, cold, record, hot_seen, warm_seen).1.len() <= WARM_MEMORY_MAX_CAPACITY,
        ({
            let (h, w, c) = tiers_after_add(hot, warm, cold, record, hot_seen, warm_seen);
            h.add(w).add(c) == hot.add(warm).add(cold).insert(record)
        }),
{
    let h1 = hot.insert(record);
    assert(scan_covers(h1, HOT_MEMORY_MAX_CAPACITY as nat, hot_seen));
    let (h, w) = migrate_tier(h1, warm, HOT_MEMORY_MAX_CAPACITY as nat, hot_seen);
    lemma_migrate_tier(h1, warm, HOT_MEMORY_MAX_CAPACITY as nat, hot_seen);
    assert(scan_covers(w, WARM_MEMORY_MAX_CAPACITY as nat, warm_seen));
    let (w2, c) = migrate_tier(w, cold, WARM_MEMORY_MAX_CAPACITY as nat, warm_seen);
    lemma_migrate_tier(w, cold, WARM_MEMORY_MAX_CAPACITY as nat, warm_seen);
    assert(h.add(w2).add(c) =~= h.add(w2.add(c)));
    assert(h.add(w) =~= h1.add(warm));
    assert(h.add(w).add(cold) =~= h.add(w2.add(c)));
    assert(hot.add(warm).add(cold).insert(record) =~= h1.add(warm).add(cold));
}

// ---------------------------------------------------------------------------
// Searching the tiers in turn

/// The tier that holds a record.
#[derive(Clone, Copy)]
pub enum MemoryTier {
    Hot,
    Warm,
    Cold,
}

/// How many more records a search that wants `limit` and holds `found` asks
/// of the next tier; `None` when it has enough.
pub open spec fn next_request(limit: nat, found: nat) -> Option<nat> {
    if found < limit {
        Some((limit - found) as nat)
    } else {
        None
    }
}

/// How many more records a search that wants `limit` and holds `found` asks
/// of the next tier; `None` when it has enough.
pub fn remaining_request(limit: usize, found: usize) -> (r: Option<usize>)
    ensures
        match r {
            Some(n) => next_request(limit as nat, found as nat) == Some(n as nat),
            None => next_request(limit as nat, found as nat) is None,
        },
{
    if found < limit {
        Some(limit - found)
    } else {
        None
    }
}

/// One tier's step of a search that wants `limit` records: the tier's
/// results, tagged with the tier, go after those already found, in the
/// order the tier gave them; then comes what the next tier is to be asked
/// for (`None`: nothing, the search has enough). A tier that gave no more
/// than it was asked for keeps the search within its limit.
pub fn gather_tier<T>(found: &mut Vec<(T, MemoryTier)>, results: Vec<T>, tier: MemoryTier, limit: usize) -> (next: Option<
    usize,
>)
    ensures
        final(found)@ == old(found)@ + results@.map_values(|r: T| (r, tier)),
        match next {
            Some(n) => next_request(limit as nat, final(found)@.len()) == Some(n as nat),
            None => next_request(limit as nat, final(found)@.len()) is None,
        },
        old(found)@.len() + results@.len() <= limit ==> final(found)@.len() <= limit,
{
    let ghost start = found@;
    let ghost given = results@;
    let mut rest = results;
    let total: usize = rest.len();
    let mut i: usize = 0;
    while rest.len() > 0
        invariant
            total == given.len(),
            i + rest@.len() == given.len(),
            rest@ == given.skip(i as int),
            found@ == start + given.take(i as int).map_values(|r: T| (r, tier)),
        decreases rest@.len(),
    {
        let r = rest.remove(0);
        assert(given.take(i + 1) =~= given.take(i as int).push(given[i as int]));
        assert(given.take(i + 1).map_values(|r: T| (r, tier)) =~= given.take(i as int).map_values(|r: T| (r, tier)).push(
            (given[i as int], tier),
        ));
        found.push((r, tier));
        assert(rest@ =~= given.skip(i + 1));
        i = i + 1;
    }
    assert(given.take(i as int) =~= given);
    remaining_request(limit, found.len())
}

/// The number of records a search holds after adding `got` from a tier it
/// asked for `next_request(limit, found)` (a tier asked nothing adds none).
pub open spec fn after_tier(limit: nat, found: nat, got: nat) -> nat {
    match next_request(limit, found) {
        Some(_) => found + got,
        None => found,
    }
}

/// When each tier gives at most what it is asked for, a search over the hot,
/// warm and cold tiers in turn never holds more than it wants.
pub proof fn lemma_search_within_limit(limit: nat, hot: nat, warm: nat, cold: nat)
    requires
        hot <= limit,
        next_request(limit, hot) matches Some(n) ==> warm <= n,
        next_request(limit, after_tier(limit, hot, warm)) matches Some(n) ==> cold <= n,
    ensures
        after_tier(limit, after_tier(limit, hot, warm), cold) <= limit,
{
}

/// The tier last recorded for the identifier `id` among `tagged[..n]`; a
/// later finding of the same record replaces an earlier one.
pub open spec fn last_tier(tagged: Seq<(MemoryRecord, MemoryTier)>, n: int, id: Seq<char>) -> Option<MemoryTier>
    decreases n,
{
    if n <= 0 {
        None
    } else if tagged[n - 1].0.id@ == id {
        Some(tagged[n - 1].1)
    } else {
        last_tier(tagged, n - 1, id)
    }
}

/// The tier each found record is written back to after its access.
fn tier_for(tagged: &Vec<(MemoryRecord, MemoryTier)>, id: &String) -> (t: Option<MemoryTier>)
    ensures
        t == last_tier(tagged@, tagged@.len() as int, id@),
{
    let mut n: usize = tagged.len();
    while n > 0
        invariant
            n <= tagged.len(),
            last_tier(tagged@, tagged@.len() as int, id@) == last_tier(tagged@, n as int, id@),
        decreases n,
    {
        if tagged[n - 1].0.id == *id {
            return Some(tagged[n - 1].1);
        }
        n = n - 1;
    }
    None
}

/// The found records after one more access at `now`, each with the tier it
/// is written back to: its count grows by one, it was last accessed and
/// updated at `now`, and it goes to the tier it was last found in.
pub fn apply_access(tagged: Vec<(MemoryRecord, MemoryTier)>, now: &String) -> (out: Vec<(MemoryRecord, MemoryTier)>)
    requires
        forall|k: int| 0 <= k < tagged@.len() ==> #[trigger] tagged@[k].0.access_count < u32::MAX,
    ensures
        out@.len() == tagged@.len(),
        forall|k: int| #![trigger out@[k]] 0 <= k < out@.len() ==> {
            let (r, t) = out@[k];
            let old_r = tagged@[k].0;
            &&& r.id == old_r.id
            &&& r.metadata == old_r.metadata
            &&& r.created_at == old_r.created_at
            &&& r.access_count == old_r.access_count + 1
            &&& r.last_accessed_at@ == now@
            &&& r.updated_at@ == now@
            &&& last_tier(tagged@, tagged@.len() as int, old_r.id@) == Some(t)
        },
{
    let mut tiers: Vec<MemoryTier> = Vec::new();
    let mut i: usize = 0;
    while i < tagged.len()
        invariant
            i <= tagged.len(),
            tiers@.len() == i,
            forall|k: int| 0 <= k < i ==> last_tier(tagged@, tagged@.len() as int, tagged@[k].0.id@)
                == Some(#[trigger] tiers@[k]),
        decreases tagged.len() - i,
    {
        proof {
            lemma_last_tier_found(tagged@, tagged@.len() as int, i as int);
        }
        let t = tier_for(&tagged, &tagged[i].0.id).unwrap();
        tiers.push(t);
        i = i + 1;
    }
    let ghost orig = tagged@;
    let mut rest = tagged;
    let mut out: Vec<(MemoryRecord, MemoryTier)> = Vec::new();
    let mut i: usize = 0;
    while i < tiers.len()
        invariant
            i <= tiers.len() == orig.len(),
            rest@ == orig.skip(i as int),
            out@.len() == i,
            forall|k: int| 0 <= k < orig.len() ==> orig[k].0.access_count < u32::MAX,
            forall|k: int| 0 <= k < orig.len() ==> last_tier(orig, orig.len() as int, orig[k].0.id@)
                == Some(#[trigger] tiers@[k]),
            forall|k: int| #![trigger out@[k]] 0 <= k < i ==> {
                let (r, t) = out@[k];
                let old_r = orig[k].0;
                &&& r.id == old_r.id
                &&& r.metadata == old_r.metadata
                &&& r.created_at == old_r.created_at
                &&& r.access_count == old_r.access_count + 1
                &&& r.last_accessed_at@ == now@
                &&& r.updated_at@ == now@
                &&& last_tier(orig, orig.len() as int, old_r.id@) == Some(t)
            },
        decreases tiers.len() - i,
    {
        assert(rest@[0] == orig[i as int]);
        let (r, _) = rest.remove(0);
        assert(rest@ =~= orig.skip(i + 1));
        let updated = MemoryRecord {
            id: r.id,
            metadata: r.metadata,
            created_at: r.created_at,
            updated_at: now.clone(),
            last_accessed_at: now.clone(),
            access_count: r.access_count + 1,
        };
        out.push((updated, tiers[i]));
        i = i + 1;
    }
    out
}

proof fn lemma_last_tier_found(tagged: Seq<(MemoryRecord, MemoryTier)>, n: int, k: int)
    requires
        0 <= k < n <= tagged.len(),
    ensures
        last_tier(tagged, n, tagged[k].0.id@) is Some,
    decreases n,
{
    if tagged[n - 1].0.id@ != tagged[k].0.id@ {
        lemma_last_tier_found(tagged, n - 1, k);
    }
}

/// The found records after one more access now, each with the tier it is
/// written back to (see `apply_access`), and the instant taken as now. Every
/// record was last accessed and updated at the same text, and up to the end
/// of the year 9999 that text reads back as RFC 3339 giving that instant.
pub fn record_access(tagged: Vec<(MemoryRecord, MemoryTier)>) -> (r: (Vec<(MemoryRecord, MemoryTier)>, Instant))
    requires
        forall|k: int| 0 <= k < tagged@.len() ==> #[trigger] tagged@[k].0.access_count < u32::MAX,
    ensures
        r.0@.len() == tagged@.len(),
        0 <= r.1.secs <= CALENDAR_MAX_SECS,
        r.1.nanos < 1_000_000_000,
        forall|k: int| #![trigger r.0@[k]] 0 <= k < r.0@.len() ==> {
            let (rec, t) = r.0@[k];
            let old_r = tagged@[k].0;
            &&& rec.id == old_r.id
            &&& rec.metadata == old_r.metadata
            &&& rec.created_at == old_r.created_at
            &&& rec.access_count == old_r.access_count + 1
            &&& rec.last_accessed_at@ == rec.updated_at@
            &&& rec.last_accessed_at@ == r.0@[0].0.last_accessed_at@
            &&& (r.1.secs <= RFC3339_MAX_SECS ==> rfc3339_instant(rec.last_accessed_at@) == Some(
                (r.1.secs as int, r.1.nanos as int),
            ))
            &&& last_tier(tagged@, tagged@.len() as int, old_r.id@) == Some(t)
        },
{
    let (now, text) = crate::clock::utc_now_rfc3339();
    (apply_access(tagged, &text), now)
}

// ---------------------------------------------------------------------------
// Moving up

/// A record in the cold tier accessed this often moves to the warm tier.
pub const COLD_TO_WARM_ACCESS_THRESHOLD: u32 = 3;

/// A record in the warm tier accessed this often moves to the hot tier.
pub const WARM_TO_HOT_ACCESS_THRESHOLD: u32 = 5;

/// An access within this many whole hours is recent.
pub const RECENT_ACCESS_HOURS: i64 = 24;

/// A record last accessed at the RFC 3339 text `last` was accessed fewer
/// than `RECENT_ACCESS_HOURS` whole hours before `now`.
pub open spec fn recently_accessed_at(last: Seq<char>, now: Instant) -> bool {
    &&& last.len() > 0
    &&& rfc3339_instant(last) matches Some((secs, nanos))
    &&& hours_between(now.secs as int, now.nanos as int, secs, nanos) matches Some(h)
    &&& h < RECENT_ACCESS_HOURS
}

/// Whether a record accessed `access_count` times, recently or not, is due
/// to move up a tier.
pub open spec fn promotion_due(access_count: nat, recent: bool) -> bool {
    (access_count >= COLD_TO_WARM_ACCESS_THRESHOLD && recent) || access_count >= WARM_TO_HOT_ACCESS_THRESHOLD
}

/// Whether a record last accessed at `last` counts as recent as of `now`,
/// by the span between them, where neither is a leap second and `now` lies
/// within the calendar: `None` when `last` is no RFC 3339 moment of that
/// kind, `Some(false)` when it is empty or no RFC 3339 text, else whether fewer than `RECENT_ACCESS_HOURS` whole hours passed.
pub open spec fn recent_by_span(last: Seq<char>, now: Instant) -> Option<bool> {
    if now.nanos < 1_000_000_000 && CALENDAR_MIN_SECS <= now.secs <= CALENDAR_MAX_SECS {
        if last.len() == 0 {
            Some(false)
        } else {
            match rfc3339_instant(last) {
            Some((secs, nanos)) => if nanos < 1_000_000_000 {
                Some(whole_hours_of(now.secs as int, now.nanos as int, secs, nanos) < RECENT_ACCESS_HOURS)
            } else {
                None
            },
            None => Some(false),
        }
        }
    } else {
        None
    }
}

/// Whether the record last accessed at `last` was accessed recently, as of
/// `now`.
pub fn is_recently_accessed(last: &str, now: Instant) -> (b: bool)
    ensures
        b == recently_accessed_at(last@, now),
        recent_by_span(last@, now) matches Some(v) ==> b == v,
{
    if last.unicode_len() == 0 {
        return false;
    }
    match parse_rfc3339(last) {
        Some(t) => match whole_hours_between(now, t) {
            Some(h) => h < RECENT_ACCESS_HOURS,
            None => false,
        },
        None => false,
    }
}

/// Whether `record` is due to move up a tier as of `now`.
pub fn promotion_due_at(record: &MemoryRecord, now: Instant) -> (b: bool)
    ensures
        b == promotion_due(record.access_count as nat, recently_accessed_at(record.last_accessed_at@, now)),
        recent_by_span(record.last_accessed_at@, now) matches Some(v) ==> b == promotion_due(
            record.access_count as nat,
            v,
        ),
{
    let recent = is_recently_accessed(record.last_accessed_at.as_str(), now);
    (record.access_count >= COLD_TO_WARM_ACCESS_THRESHOLD && recent) || record.access_count
        >= WARM_TO_HOT_ACCESS_THRESHOLD
}

/// Whether `record` is due to move up a tier now: it is when accessed at
/// least `WARM_TO_HOT_ACCESS_THRESHOLD` times, or at least
/// `COLD_TO_WARM_ACCESS_THRESHOLD` times with the last access recent. Now is
/// the clock's instant, no leap second and within the calendar, so wherever
/// the last access is an RFC 3339 moment outside a leap second, recent means
/// fewer than `RECENT_ACCESS_HOURS` whole hours before now.
pub fn should_promote_memory(record: &MemoryRecord) -> (b: bool)
    ensures
        exists|now: Instant|
            {
                &&& 0 <= now.secs <= CALENDAR_MAX_SECS
                &&& now.nanos < 1_000_000_000
                &&& b == promotion_due(
                    record.access_count as nat,
                    recently_accessed_at(record.last_accessed_at@, now),
                )
                &&& (recent_by_span(record.last_accessed_at@, now) matches Some(v) ==> b == promotion_due(
                    record.access_count as nat,
                    v,
                ))
            },
        record.access_count >= WARM_TO_HOT_ACCESS_THRESHOLD ==> b,
        record.access_count < COLD_TO_WARM_ACCESS_THRESHOLD ==> !b,
{
    let now = utc_now();
    promotion_due_at(record, now)
}

/// The thresholds decide promotion alone at both ends: a record accessed
/// fewer than `COLD_TO_WARM_ACCESS_THRESHOLD` times never moves up, one
/// accessed `WARM_TO_HOT_ACCESS_THRESHOLD` times or more always does.
pub proof fn lemma_promotion_thresholds(access_count: nat, recent: bool)
    ensures
        access_count < COLD_TO_WARM_ACCESS_THRESHOLD ==> !promotion_due(access_count, recent),
        access_count >= WARM_TO_HOT_ACCESS_THRESHOLD ==> promotion_due(access_count, recent),
        promotion_due(access_count, false) ==> promotion_due(access_count, true),
{
}

/// Promotion by the numbers: a record moves up when accessed at least 3
/// times with its last access recent, or at least 5 times whatever its
/// recency; more accesses never stop a record from moving up, nor does a
/// recent access.
pub proof fn lemma_promotion_rule(access_count: nat, recent: bool)
    ensures
        promotion_due(access_count, recent) <==> ((access_count >= 3 && recent) || access_count >= 5),
        forall|more: nat|
            more >= access_count && promotion_due(access_count, recent) ==> #[trigger] promotion_due(more, recent),
        promotion_due(access_count, false) ==> promotion_due(access_count, true),
{
}

/// What moving a record up does.
pub enum PromotionMove {
    /// Delete it from the cold tier and write it, counted afresh, to the warm one.
    ColdToWarm(MemoryRecord),
    /// Delete it from the warm tier and write it, counted afresh, to the hot one.
    WarmToHot(MemoryRecord),
    /// Leave it where it is.
    Stay,
}

/// The record as it moves up: its access count starts again from zero.
pub open spec fn moved(r: MemoryRecord, m: MemoryRecord) -> bool {
    &&& m.id == r.id
    &&& m.metadata == r.metadata
    &&& m.created_at == r.created_at
    &&& m.updated_at == r.updated_at
    &&& m.last_accessed_at == r.last_accessed_at
    &&& m.access_count == 0
}

/// The move of a record found in `location` (the cold tier if it is there,
/// else the warm tier if it is there, else none): from cold to warm once
/// accessed `COLD_TO_WARM_ACCESS_THRESHOLD` times, from warm to hot once
/// accessed `WARM_TO_HOT_ACCESS_THRESHOLD` times, else no move.
pub fn plan_promotion(record: MemoryRecord, location: Option<MemoryTier>) -> (m: PromotionMove)
    ensures
        location == Some(MemoryTier::Cold) && record.access_count >= COLD_TO_WARM_ACCESS_THRESHOLD
            ==> (m matches PromotionMove::ColdToWarm(r) && moved(record, r)),
        location == Some(MemoryTier::Warm) && record.access_count >= WARM_TO_HOT_ACCESS_THRESHOLD
            ==> (m matches PromotionMove::WarmToHot(r) && moved(record, r)),
        !(location == Some(MemoryTier::Cold) && record.access_count >= COLD_TO_WARM_ACCESS_THRESHOLD)
            && !(location == Some(MemoryTier::Warm) && record.access_count
            >= WARM_TO_HOT_ACCESS_THRESHOLD) ==> m is Stay,
{
    match location {
        Some(MemoryTier::Cold) => {
            if record.access_count >= COLD_TO_WARM_ACCESS_THRESHOLD {
                PromotionMove::ColdToWarm(MemoryRecord { access_count: 0, ..record })
            } else {
                PromotionMove::Stay
            }
        },
        Some(MemoryTier::Warm) => {
            if record.access_count >= WARM_TO_HOT_ACCESS_THRESHOLD {
                PromotionMove::WarmToHot(MemoryRecord { access_count: 0, ..record })
            } else {
                PromotionMove::Stay
            }
        },
        _ => PromotionMove::Stay,
    }
}

} // verus!
