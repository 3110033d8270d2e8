use vstd::prelude::*;

verus! {

/// Storage keys used for dashboard counters.
#[derive(Debug, Clone, Copy, PartialEq, Eq, Structural)]
pub enum AnalyticsKey {
    CourseCount,
    LessonCount,
    StudentCount,
    CertificateCount,
    RewardCount,
    TotalXpIssued,
}

/// Dashboard summary returned to the frontend.
#[derive(Debug, Clone, Copy, PartialEq, Eq, Structural)]
pub struct DashboardSummary {
    pub courses: u32,
    pub lessons: u32,
    pub students: u32,
    pub certificates: u32,
    pub rewards: u32,
    pub xp_issued: u64,
}

/// A counter value as it is stored: a `u32` or a `u64`.
#[derive(Debug, Clone, Copy, PartialEq, Eq, Structural)]
pub enum StoredCounter {
    Small(u32),
    Large(u64),
}

/// Whether a stored value (or its absence) can be read as a `u32` counter.
pub open spec fn readable_as_u32(stored: Option<StoredCounter>) -> bool {
    !(stored matches Some(StoredCounter::Large(_)))
}

/// Whether a stored value (or its absence) can be read as a `u64` counter.
pub open spec fn readable_as_u64(stored: Option<StoredCounter>) -> bool {
    !(stored matches Some(StoredCounter::Small(_)))
}

/// The `u32` counter that a stored value gives: the value, or 0 when
/// nothing is stored.
pub open spec fn u32_counter(stored: Option<StoredCounter>) -> u32 {
    match stored {
        Some(StoredCounter::Small(value)) => value,
        _ => 0,
    }
}

/// The `u64` counter that a stored value gives: the value, or 0 when
/// nothing is stored.
pub open spec fn u64_counter(stored: Option<StoredCounter>) -> u64 {
    match stored {
        Some(StoredCounter::Large(value)) => value,
        _ => 0,
    }
}

/// The value written last under `key` in a record of writes.
pub open spec fn last_written(writes: Seq<(AnalyticsKey, StoredCounter)>, key: AnalyticsKey) -> Option<
    StoredCounter,
>
    decreases writes.len(),
{
    if writes.len() == 0 {
        None
    } else if writes.last().0 == key {
        Some(writes.last().1)
    } else {
        last_written(writes.drop_last(), key)
    }
}

/// The stored dashboard counters. A value written under a key replaces
/// whatever was stored under it before.
pub struct CounterStore {
    writes: Vec<(AnalyticsKey, StoredCounter)>,
}

impl CounterStore {
    /// The value stored under `key`, if any.
    pub closed spec fn stored(&self, key: AnalyticsKey) -> Option<StoredCounter> {
        last_written(self.writes@, key)
    }

    /// A store that holds no counter.
    pub fn new() -> (store: Self)
        ensures
            forall|key: AnalyticsKey| #[trigger] store.stored(key) == None::<StoredCounter>,
    {
        CounterStore { writes: Vec::new() }
    }

    /// Stores `value` under `key` as a `u32`.
    pub fn set_u32(&mut self, key: AnalyticsKey, value: u32)
        ensures
            final(self).stored(key) == Some(StoredCounter::Small(value)),
            forall|other: AnalyticsKey|
                other != key ==> #[trigger] final(self).stored(other) == old(self).stored(other),
    {
        self.write(key, StoredCounter::Small(value));
    }

    /// Stores `value` under `key` as a `u64`.
    pub fn set_u64(&mut self, key: AnalyticsKey, value: u64)
        ensures
            final(self).stored(key) == Some(StoredCounter::Large(value)),
            forall|other: AnalyticsKey|
                other != key ==> #[trigger] final(self).stored(other) == old(self).stored(other),
    {
        self.write(key, StoredCounter::Large(value));
    }

    fn write(&mut self, key: AnalyticsKey, value: StoredCounter)
        ensures
            final(self).stored(key) == Some(value),
            forall|other: AnalyticsKey|
                other != key ==> #[trigger] final(self).stored(other) == old(self).stored(other),
    {
        self.writes.push((key, value));
        assert(self.writes@.drop_last() =~= old(self).writes@);
    }

    /// The value stored under `key`, if any.
    pub fn get(&self, key: AnalyticsKey) -> (found: Option<StoredCounter>)
        ensures
            found == self.stored(key),
    {
        let mut i = self.writes.len();
        assert(self.writes@.take(i as int) =~= self.writes@);
        while i > 0
            invariant
                i <= self.writes@.len(),
                last_written(self.writes@, key) == last_written(self.writes@.take(i as int), key),
            decreases i,
        {
            assert(self.writes@.take(i as int).drop_last() =~= self.writes@.take(i - 1));
            let (written_key, value) = self.writes[i - 1];
            if written_key == key {
                return Some(value);
            }
            i = i - 1;
        }
        None
    }
}

/// Read a u32 counter from storage.
fn read_u32(store: &CounterStore, key: AnalyticsKey) -> (counter: u32)
    requires
        readable_as_u32(store.stored(key)),
    ensures
        counter == u32_counter(store.stored(key)),
{
    match store.get(key) {
        Some(StoredCounter::Small(value)) => value,
        _ => 0,
    }
}

/// Read a u64 counter from storage.
fn read_u64(store: &CounterStore, key: AnalyticsKey) -> (counter: u64)
    requires
        readable_as_u64(store.stored(key)),
    ensures
        counter == u64_counter(store.stored(key)),
{
    match store.get(key) {
        Some(StoredCounter::Large(value)) => value,
        _ => 0,
    }
}

/// Whether the dashboard counters are stored with the types that the
/// dashboard reads them as.
pub open spec fn dashboard_readable(store: &CounterStore) -> bool {
    &&& readable_as_u32(store.stored(AnalyticsKey::CourseCount))
    &&& readable_as_u32(store.stored(AnalyticsKey::LessonCount))
    &&& readable_as_u32(store.stored(AnalyticsKey::StudentCount))
    &&& readable_as_u32(store.stored(AnalyticsKey::CertificateCount))
    &&& readable_as_u32(store.stored(AnalyticsKey::RewardCount))
    &&& readable_as_u64(store.stored(AnalyticsKey::TotalXpIssued))
}

/// The summary that the stored counters give; a counter that was never
/// stored counts as 0.
pub open spec fn summary_of(store: &CounterStore) -> DashboardSummary {
    DashboardSummary {
        courses: u32_counter(store.stored(AnalyticsKey::CourseCount)),
        lessons: u32_counter(store.stored(AnalyticsKey::LessonCount)),
        students: u32_counter(store.stored(AnalyticsKey::StudentCount)),
        certificates: u32_counter(store.stored(AnalyticsKey::CertificateCount)),
        rewards: u32_counter(store.stored(AnalyticsKey::RewardCount)),
        xp_issued: u64_counter(store.stored(AnalyticsKey::TotalXpIssued)),
    }
}

/// Returns a single dashboard summary containing all LMS statistics.
pub fn get_dashboard_summary(store: &CounterStore) -> (summary: DashboardSummary)
    requires
        dashboard_readable(store),
    ensures
        summary == summary_of(store),
{
    DashboardSummary {
        courses: read_u32(store, AnalyticsKey::CourseCount),
        lessons: read_u32(store, AnalyticsKey::LessonCount),
        students: read_u32(store, AnalyticsKey::StudentCount),
        certificates: read_u32(store, AnalyticsKey::CertificateCount),
        rewards: read_u32(store, AnalyticsKey::RewardCount),
        xp_issued: read_u64(store, AnalyticsKey::TotalXpIssued),
    }
}

/// A store in which no counter was ever written gives an all-zero summary.
pub proof fn lemma_empty_store_summary_is_zero(store: &CounterStore)
    requires
        forall|key: AnalyticsKey| #[trigger] store.stored(key) == None::<StoredCounter>,
    ensures
        dashboard_readable(store),
        summary_of(store) == (DashboardSummary {
            courses: 0,
            lessons: 0,
            students: 0,
            certificates: 0,
            rewards: 0,
            xp_issued: 0,
        }),
{
    assert(store.stored(AnalyticsKey::CourseCount) == None::<StoredCounter>);
    assert(store.stored(AnalyticsKey::LessonCount) == None::<StoredCounter>);
    assert(store.stored(AnalyticsKey::StudentCount) == None::<StoredCounter>);
    assert(store.stored(AnalyticsKey::CertificateCount) == None::<StoredCounter>);
    assert(store.stored(AnalyticsKey::RewardCount) == None::<StoredCounter>);
    assert(store.stored(AnalyticsKey::TotalXpIssued) == None::<StoredCounter>);
}

/// A value written under a key is read back under that key, and leaves
/// every other key as it was; nothing is stored under any key before the
/// first write.
pub proof fn lemma_counter_read_gives_back_write(
    writes: Seq<(AnalyticsKey, StoredCounter)>,
    key: AnalyticsKey,
    value: StoredCounter,
    other: AnalyticsKey,
)
    ensures
        last_written(Seq::<(AnalyticsKey, StoredCounter)>::empty(), key) == None::<StoredCounter>,
        last_written(writes.push((key, value)), key) == Some(value),
        other != key ==> last_written(writes.push((key, value)), other) == last_written(
            writes,
            other,
        ),
{
    assert(writes.push((key, value)).drop_last() =~= writes);
}

/// A counter reads as the value stored for it, or 0 when none is stored; a
/// value stored with the other type is not read as this one.
pub proof fn lemma_counters_read_stored_values(small: u32, large: u64)
    ensures
        u32_counter(Some(StoredCounter::Small(small))) == small,
        u32_counter(None) == 0,
        u64_counter(Some(StoredCounter::Large(large))) == large,
        u64_counter(None) == 0,
        readable_as_u32(Some(StoredCounter::Small(small))) && readable_as_u32(None),
        !readable_as_u32(Some(StoredCounter::Large(large))),
        readable_as_u64(Some(StoredCounter::Large(large))) && readable_as_u64(None),
        !readable_as_u64(Some(StoredCounter::Small(small))),
{
}

/// Each field of the summary comes from its own counter: courses, lessons,
/// students, certificates and rewards from the `u32` counters under their
/// keys, and the issued experience from the `u64` counter under
/// `TotalXpIssued`.
pub proof fn lemma_summary_fields_follow_their_keys(store: &CounterStore, small: u32, large: u64)
    ensures
        store.stored(AnalyticsKey::CourseCount) == Some(StoredCounter::Small(small))
            ==> summary_of(store).courses == small,
        store.stored(AnalyticsKey::LessonCount) == Some(StoredCounter::Small(small))
            ==> summary_of(store).lessons == small,
        store.stored(AnalyticsKey::StudentCount) == Some(StoredCounter::Small(small))
            ==> summary_of(store).students == small,
        store.stored(AnalyticsKey::CertificateCount) == Some(StoredCounter::Small(small))
            ==> summary_of(store).certificates == small,
        store.stored(AnalyticsKey::RewardCount) == Some(StoredCounter::Small(small))
            ==> summary_of(store).rewards == small,
        store.stored(AnalyticsKey::TotalXpIssued) == Some(StoredCounter::Large(large))
            ==> summary_of(store).xp_issued == large,
        store.stored(AnalyticsKey::CourseCount) == None::<StoredCounter> ==> summary_of(
            store,
        ).courses == 0,
        store.stored(AnalyticsKey::LessonCount) == None::<StoredCounter> ==> summary_of(
            store,
        ).lessons == 0,
        store.stored(AnalyticsKey::StudentCount) == None::<StoredCounter> ==> summary_of(
            store,
        ).students == 0,
        store.stored(AnalyticsKey::CertificateCount) == None::<StoredCounter> ==> summary_of(
            store,
        ).certificates == 0,
        store.stored(AnalyticsKey::RewardCount) == None::<StoredCounter> ==> summary_of(
            store,
        ).rewards == 0,
        store.stored(AnalyticsKey::TotalXpIssued) == None::<StoredCounter> ==> summary_of(
            store,
        ).xp_issued == 0,
{
}

} // verus!
