//! The activity store and its overlap guard.
//!
//! A [`Store`] keeps activities in the order in which they were accepted. No
//! two stored activities overlap in time: an activity whose closed interval
//! `[start, start + elapsed]` meets that of a stored one is turned away, and
//! the store is left as it was.

use vstd::prelude::*;
use crate::parser::{Lap, Record, Session, SessionView};
use crate::summary::{
    detailed_rollups, lemma_absent_sub_sport, lemma_sub_sports_distinct, lemma_total_bounded,
    lemma_total_in_bounded, overall_rollup, sub_sports, summary_views, total, Measure, Summary,
    SummaryView,
};

verus! {

/// Why the store turned an activity away.
#[derive(Clone, Copy, Debug, PartialEq, Eq, Structural)]
pub enum StoreError {
    /// The activity overlaps one that is already stored.
    DuplicateActivity,
    /// The store cannot take the rows: its identities are used up.
    StorageUnavailable,
    /// What was offered is no fresh activity, or what was persisted breaks a
    /// rule of the store.
    ConstraintViolation,
}

/// Start of an activity's interval, in thousandths of a second since the
/// epoch.
pub open spec fn interval_start(s: SessionView) -> int {
    s.start_time * 1000
}

/// End of an activity's interval, in thousandths of a second since the epoch.
pub open spec fn interval_end(s: SessionView) -> int {
    s.start_time * 1000 + s.total_elapsed_time
}

/// Two activities overlap when their closed intervals share a point.
/// Touching end points count.
pub open spec fn overlap(a: SessionView, b: SessionView) -> bool {
    interval_start(a) <= interval_end(b) && interval_start(b) <= interval_end(a)
}

/// The candidate overlaps some stored activity.
pub open spec fn conflicts(stored: Seq<SessionView>, candidate: SessionView) -> bool {
    exists|i: int| 0 <= i < stored.len() && #[trigger] overlap(stored[i], candidate)
}

/// Number of lap rows held for the given activities.
pub open spec fn lap_rows(stored: Seq<SessionView>) -> nat
    decreases stored.len(),
{
    if stored.len() == 0 {
        0
    } else {
        lap_rows(stored.drop_last()) + stored.last().laps.len()
    }
}

/// Number of sample rows held for the given activities.
pub open spec fn record_rows(stored: Seq<SessionView>) -> nat
    decreases stored.len(),
{
    if stored.len() == 0 {
        0
    } else {
        record_rows(stored.drop_last()) + stored.last().records.len()
    }
}

/// The laps as persisted: unchanged but for their identities, which count on
/// from `base`.
pub open spec fn numbered_laps(laps: Seq<Lap>, base: int) -> Seq<Lap> {
    Seq::new(laps.len(), |j: int| Lap { id: Some((base + j + 1) as i64), ..laps[j] })
}

/// The samples as persisted: unchanged but for their identities, which count
/// on from `base`.
pub open spec fn numbered_records(records: Seq<Record>, base: int) -> Seq<Record> {
    Seq::new(records.len(), |j: int| Record { id: Some((base + j + 1) as i64), ..records[j] })
}

/// The candidate as it stands in the store once accepted: with the next free
/// identity, and its laps and samples numbered after those already held.
pub open spec fn persisted(stored: Seq<SessionView>, candidate: SessionView) -> SessionView {
    SessionView {
        id: Some((stored.len() + 1) as i64),
        laps: numbered_laps(candidate.laps, lap_rows(stored) as int),
        records: numbered_records(candidate.records, record_rows(stored) as int),
        ..candidate
    }
}

/// A fresh activity has no identity yet, and neither has any of its laps and
/// samples: identities are the store's to give.
pub open spec fn fresh(candidate: SessionView) -> bool {
    &&& candidate.id is None
    &&& forall|j: int| 0 <= j < candidate.laps.len() ==> (#[trigger] candidate.laps[j]).id is None
    &&& forall|j: int|
        0 <= j < candidate.records.len() ==> (#[trigger] candidate.records[j]).id is None
}

/// There are identities left for the candidate and all its rows.
pub open spec fn has_room(stored: Seq<SessionView>, candidate: SessionView) -> bool {
    &&& stored.len() + 1 <= i64::MAX
    &&& lap_rows(stored) + candidate.laps.len() <= i64::MAX
    &&& record_rows(stored) + candidate.records.len() <= i64::MAX
}

/// What becomes of the store when a candidate is offered to it.
pub open spec fn insert_outcome(stored: Seq<SessionView>, candidate: SessionView) -> Result<
    Seq<SessionView>,
    StoreError,
> {
    if conflicts(stored, candidate) {
        Err(StoreError::DuplicateActivity)
    } else if !fresh(candidate) {
        Err(StoreError::ConstraintViolation)
    } else if !has_room(stored, candidate) {
        Err(StoreError::StorageUnavailable)
    } else {
        Ok(stored.push(persisted(stored, candidate)))
    }
}

/// The laps and samples of the activity at place `i` carry the identities
/// that follow those of all rows stored before.
pub open spec fn rows_numbered(stored: Seq<SessionView>, i: int) -> bool {
    &&& stored[i].laps == numbered_laps(stored[i].laps, lap_rows(stored.take(i)) as int)
    &&& stored[i].records == numbered_records(
        stored[i].records,
        record_rows(stored.take(i)) as int,
    )
}

/// The rules that every store keeps: the identities of activities, laps and
/// samples each count up from one in the order of acceptance, the row counts
/// fit, and no two activities overlap.
pub open spec fn consistent(stored: Seq<SessionView>) -> bool {
    &&& stored.len() <= i64::MAX
    &&& lap_rows(stored) <= i64::MAX
    &&& record_rows(stored) <= i64::MAX
    &&& forall|i: int| 0 <= i < stored.len() ==> (#[trigger] stored[i]).id == Some((i + 1) as i64)
    &&& forall|i: int| 0 <= i < stored.len() ==> #[trigger] rows_numbered(stored, i)
    &&& forall|i: int, j: int|
        0 <= i < j < stored.len() ==> !overlap(#[trigger] stored[i], #[trigger] stored[j])
}

/// The contents of each session of a sequence.
pub open spec fn session_views(sessions: Seq<Session>) -> Seq<SessionView> {
    Seq::new(sessions.len(), |i: int| sessions[i]@)
}

/// The stored activities.
#[derive(Debug)]
pub struct Store {
    sessions: Vec<Session>,
    lap_count: i64,
    record_count: i64,
}

impl View for Store {
    type V = Seq<SessionView>;

    closed spec fn view(&self) -> Seq<SessionView> {
        session_views(self.sessions@)
    }
}

impl Store {
    /// Well-formedness: the rules of the store hold of its contents.
    pub closed spec fn wf(&self) -> bool {
        &&& consistent(self@)
        &&& self.lap_count == lap_rows(self@)
        &&& self.record_count == record_rows(self@)
    }

    /// A well-formed store keeps the rules.
    pub proof fn lemma_wf_consistent(&self)
        requires
            self.wf(),
        ensures
            consistent(self@),
    {
    }

    /// Number of stored activities.
    pub fn len(&self) -> (n: usize)
        ensures
            n == self@.len(),
    {
        self.sessions.len()
    }
}

/// An empty store.
pub fn create() -> (store: Store)
    ensures
        store.wf(),
        store@ == Seq::<SessionView>::empty(),
{
    let store = Store { sessions: Vec::new(), lap_count: 0, record_count: 0 };
    assert(store@ =~= Seq::<SessionView>::empty());
    store
}

/// Whether two activities overlap in time.
pub fn overlapping(a: &Session, b: &Session) -> (yes: bool)
    ensures
        yes == overlap(a@, b@),
{
    let a_start: i128 = a.start_time as i128 * 1000;
    let a_end: i128 = a_start + a.total_elapsed_time as i128;
    let b_start: i128 = b.start_time as i128 * 1000;
    let b_end: i128 = b_start + b.total_elapsed_time as i128;
    a_start <= b_end && b_start <= a_end
}

/// Whether the store holds an activity that overlaps the given one.
pub fn session_exists(store: &Store, session: &Session) -> (found: bool)
    ensures
        found == conflicts(store@, session@),
{
    let mut i: usize = 0;
    while i < store.sessions.len()
        invariant
            i <= store.sessions.len(),
            forall|k: int| 0 <= k < i ==> !overlap(#[trigger] store@[k], session@),
        decreases store.sessions.len() - i,
    {
        if overlapping(&store.sessions[i], session) {
            assert(overlap(store@[i as int], session@));
            return true;
        }
        i = i + 1;
    }
    false
}

/// Whether nothing of the activity has an identity yet.
pub fn is_fresh(session: &Session) -> (yes: bool)
    ensures
        yes == fresh(session@),
{
    if session.id.is_some() {
        return false;
    }
    let mut j: usize = 0;
    while j < session.laps.len()
        invariant
            j <= session.laps.len(),
            forall|k: int| 0 <= k < j ==> (#[trigger] session@.laps[k]).id is None,
        decreases session.laps.len() - j,
    {
        if session.laps[j].id.is_some() {
            return false;
        }
        j = j + 1;
    }
    let mut j: usize = 0;
    while j < session.records.len()
        invariant
            j <= session.records.len(),
            forall|k: int| 0 <= k < session@.laps.len() ==> (#[trigger] session@.laps[k]).id is None,
            forall|k: int| 0 <= k < j ==> (#[trigger] session@.records[k]).id is None,
        decreases session.records.len() - j,
    {
        if session.records[j].id.is_some() {
            return false;
        }
        j = j + 1;
    }
    true
}

/// Gives the laps their identities, counting on from `base`.
fn number_laps(laps: &Vec<Lap>, base: i64) -> (numbered: Vec<Lap>)
    requires
        0 <= base,
        base + laps@.len() <= i64::MAX,
    ensures
        numbered@ == numbered_laps(laps@, base as int),
{
    let mut numbered: Vec<Lap> = Vec::new();
    let mut j: usize = 0;
    while j < laps.len()
        invariant
            j <= laps.len(),
            0 <= base,
            base + laps@.len() <= i64::MAX,
            numbered@.len() == j,
            forall|k: int| 0 <= k < j ==> numbered@[k] == numbered_laps(laps@, base as int)[k],
        decreases laps.len() - j,
    {
        let lap = laps[j];
        let id: i64 = base + (j as i64) + 1;
        numbered.push(
            Lap {
                id: Some(id),
                start_time: lap.start_time,
                avg_power: lap.avg_power,
                avg_heart_rate: lap.avg_heart_rate,
                total_moving_time: lap.total_moving_time,
                total_distance: lap.total_distance,
            },
        );
        j = j + 1;
    }
    assert(numbered@ =~= numbered_laps(laps@, base as int));
    numbered
}

/// Gives the samples their identities, counting on from `base`.
fn number_records(records: &Vec<Record>, base: i64) -> (numbered: Vec<Record>)
    requires
        0 <= base,
        base + records@.len() <= i64::MAX,
    ensures
        numbered@ == numbered_records(records@, base as int),
{
    let mut numbered: Vec<Record> = Vec::new();
    let mut j: usize = 0;
    while j < records.len()
        invariant
            j <= records.len(),
            0 <= base,
            base + records@.len() <= i64::MAX,
            numbered@.len() == j,
            forall|k: int|
                0 <= k < j ==> numbered@[k] == numbered_records(records@, base as int)[k],
        decreases records.len() - j,
    {
        let record = records[j];
        let id: i64 = base + (j as i64) + 1;
        numbered.push(
            Record {
                id: Some(id),
                timestamp: record.timestamp,
                heart_rate: record.heart_rate,
                power: record.power,
                distance: record.distance,
            },
        );
        j = j + 1;
    }
    assert(numbered@ =~= numbered_records(records@, base as int));
    numbered
}

/// The rows of an accepted activity are numbered after those stored before,
/// and the numbering of those is not touched.
proof fn lemma_push_keeps_numbering(stored: Seq<SessionView>, candidate: SessionView)
    requires
        forall|i: int| 0 <= i < stored.len() ==> #[trigger] rows_numbered(stored, i),
    ensures
        forall|i: int|
            0 <= i <= stored.len() ==> #[trigger] rows_numbered(
                stored.push(persisted(stored, candidate)),
                i,
            ),
{
    let after = stored.push(persisted(stored, candidate));
    assert forall|i: int| 0 <= i <= stored.len() implies #[trigger] rows_numbered(after, i) by {
        assert(after.take(i) =~= stored.take(i));
        if i < stored.len() {
            assert(rows_numbered(stored, i));
            assert(after[i] == stored[i]);
        } else {
            assert(stored.take(i) =~= stored);
            let kept = persisted(stored, candidate);
            assert(kept.laps =~= numbered_laps(kept.laps, lap_rows(stored) as int));
            assert(kept.records =~= numbered_records(kept.records, record_rows(stored) as int));
        }
    }
}

/// Offers an activity to the store.
///
/// An activity that overlaps a stored one is turned away as a duplicate, one
/// that is not fresh as a violation, and one for which the identities do not
/// suffice as unavailable storage, in this order; each time the store stays
/// as it was. Otherwise the activity is kept together with all its laps and
/// samples, and its new identity is returned.
pub fn insert_session(store: &mut Store, session: Session) -> (outcome: Result<i64, StoreError>)
    requires
        old(store).wf(),
    ensures
        final(store).wf(),
        match outcome {
            Ok(id) => {
                &&& insert_outcome(old(store)@, session@) == Ok::<Seq<SessionView>, StoreError>(
                    final(store)@,
                )
                &&& id == old(store)@.len() + 1
            },
            Err(e) => {
                &&& insert_outcome(old(store)@, session@) == Err::<Seq<SessionView>, StoreError>(
                    e,
                )
                &&& final(store)@ == old(store)@
            },
        },
{
    if session_exists(store, &session) {
        return Err(StoreError::DuplicateActivity);
    }
    if !is_fresh(&session) {
        return Err(StoreError::ConstraintViolation);
    }
    let held: usize = store.sessions.len();
    let lap_total: i128 = store.lap_count as i128 + session.laps.len() as i128;
    let record_total: i128 = store.record_count as i128 + session.records.len() as i128;
    if held as u128 >= i64::MAX as u128 || lap_total > i64::MAX as i128 || record_total
        > i64::MAX as i128 {
        return Err(StoreError::StorageUnavailable);
    }
    let id: i64 = held as i64 + 1;
    let kept = Session {
        id: Some(id),
        start_time: session.start_time,
        total_elapsed_time: session.total_elapsed_time,
        total_distance: session.total_distance,
        avg_power: session.avg_power,
        total_moving_time: session.total_moving_time,
        avg_heart_rate: session.avg_heart_rate,
        threshold_power: session.threshold_power,
        sport: session.sport,
        sub_sport: session.sub_sport,
        avg_cadence: session.avg_cadence,
        laps: number_laps(&session.laps, store.lap_count),
        records: number_records(&session.records, store.record_count),
        serial_num: session.serial_num,
    };
    assert(kept@ == persisted(store@, session@));
    let ghost before = store@;
    store.sessions.push(kept);
    store.lap_count = lap_total as i64;
    store.record_count = record_total as i64;
    proof {
        assert(store@ =~= before.push(persisted(before, session@)));
        assert(store@.drop_last() =~= before);
        lemma_insert_keeps_rules(before, session@);
    }
    Ok(id)
}

/// The store without the activity that it accepted last.
pub open spec fn without_last(stored: Seq<SessionView>) -> Seq<SessionView> {
    if stored.len() > 0 {
        stored.drop_last()
    } else {
        stored
    }
}

/// A store stays within its rules when the activity accepted last leaves it.
pub proof fn lemma_without_last_keeps_rules(stored: Seq<SessionView>)
    requires
        consistent(stored),
    ensures
        consistent(without_last(stored)),
{
    if stored.len() > 0 {
        let rest = stored.drop_last();
        assert forall|i: int| 0 <= i < rest.len() implies #[trigger] rows_numbered(rest, i) by {
            assert(rows_numbered(stored, i));
            assert(rest.take(i) =~= stored.take(i));
        }
    }
}

/// Takes the activity that was accepted last out of the store again, with
/// its laps and samples, and hands it back; an empty store has none to give.
/// This is how an acceptance is undone when its rows could not be written.
pub fn discard_last(store: &mut Store) -> (taken: Option<Session>)
    requires
        old(store).wf(),
    ensures
        final(store).wf(),
        final(store)@ == without_last(old(store)@),
        match taken {
            Some(s) => old(store)@.len() > 0 && s@ == old(store)@.last(),
            None => old(store)@.len() == 0,
        },
{
    let ghost before = store@;
    match store.sessions.pop() {
        Some(last) => {
            proof {
                assert(store@ =~= before.drop_last());
                assert(last@ == before.last());
                lemma_without_last_keeps_rules(before);
            }
            store.lap_count = store.lap_count - last.laps.len() as i64;
            store.record_count = store.record_count - last.records.len() as i64;
            Some(last)
        },
        None => {
            assert(store@ =~= before);
            None
        },
    }
}

/// Discarding the activity that was accepted last undoes its acceptance.
pub proof fn lemma_discard_undoes_insert(stored: Seq<SessionView>, candidate: SessionView)
    requires
        insert_outcome(stored, candidate) is Ok,
    ensures
        without_last(insert_outcome(stored, candidate)->Ok_0) == stored,
{
    assert(stored.push(persisted(stored, candidate)).drop_last() =~= stored);
}

/// Each activity starts later than all that follow it.
pub open spec fn newest_first(sessions: Seq<SessionView>) -> bool {
    forall|i: int, j: int|
        0 <= i < j < sessions.len() ==> (#[trigger] sessions[i]).start_time > (
        #[trigger] sessions[j]).start_time
}

/// One of the first `k` stored activities has this content.
pub open spec fn among_first(stored: Seq<SessionView>, k: int, content: SessionView) -> bool {
    exists|j: int| 0 <= j < k && j < stored.len() && #[trigger] stored[j] == content
}

/// Activities that do not overlap start at different times.
pub proof fn lemma_disjoint_starts_differ(a: SessionView, b: SessionView)
    requires
        !overlap(a, b),
    ensures
        a.start_time != b.start_time,
{
}

/// All stored activities, the most recent first.
///
/// The result holds exactly the stored activities, each once: it is as long as
/// the store, strictly ordered by start time, and every stored activity is in
/// it.
pub fn get_all_sessions(store: &Store) -> (all: Vec<Session>)
    requires
        store.wf(),
    ensures
        all@.len() == store@.len(),
        newest_first(session_views(all@)),
        forall|i: int| 0 <= i < all@.len() ==> store@.contains(#[trigger] all@[i]@),
        forall|k: int|
            0 <= k < store@.len() ==> session_views(all@).contains(#[trigger] store@[k]),
{
    let mut all: Vec<Session> = Vec::new();
    let mut k: usize = 0;
    while k < store.sessions.len()
        invariant
            k <= store.sessions.len(),
            store.wf(),
            all@.len() == k,
            newest_first(session_views(all@)),
            forall|i: int| 0 <= i < all@.len() ==> among_first(store@, k as int, #[trigger] all@[i]@),
            forall|j: int|
                0 <= j < k ==> session_views(all@).contains(#[trigger] store@[j]),
        decreases store.sessions.len() - k,
    {
        let session = store.sessions[k].duplicate();
        assert(session@ == store@[k as int]);
        let mut p: usize = 0;
        while p < all.len() && all[p].start_time > session.start_time
            invariant
                p <= all.len(),
                forall|i: int| 0 <= i < p ==> (#[trigger] all@[i])@.start_time > session.start_time,
            decreases all.len() - p,
        {
            p = p + 1;
        }
        let ghost before = session_views(all@);
        proof {
            assert forall|i: int| p <= i < all@.len() implies (#[trigger] before[i]).start_time
                < session.start_time by {
                let j = choose|j: int| 0 <= j < k && j < store@.len() && store@[j] == all@[i]@;
                assert(!overlap(store@[j], store@[k as int]));
                lemma_disjoint_starts_differ(store@[j], store@[k as int]);
                if i > p {
                    assert(before[p as int].start_time > before[i].start_time);
                }
            }
        }
        all.insert(p, session);
        proof {
            let after = session_views(all@);
            assert(after =~= before.insert(p as int, store@[k as int]));
            assert forall|i: int, j: int| 0 <= i < j < after.len() implies (
            #[trigger] after[i]).start_time > (#[trigger] after[j]).start_time by {
                if i < p && j > p {
                    assert(after[i] == before[i]);
                    assert(after[j] == before[j - 1]);
                } else if i < p && j < p {
                    assert(after[i] == before[i]);
                    assert(after[j] == before[j]);
                } else if i > p {
                    assert(after[i] == before[i - 1]);
                    assert(after[j] == before[j - 1]);
                } else if i == p {
                    assert(after[j] == before[j - 1]);
                } else {
                    assert(after[i] == before[i]);
                }
            }
            assert forall|i: int| 0 <= i < all@.len() implies among_first(
                store@,
                k as int + 1,
                #[trigger] all@[i]@,
            ) by {
                assert(all@[i]@ == after[i]);
                if i == p {
                    assert(store@[k as int] == all@[i]@);
                } else {
                    let old_i = if i < p {
                        i
                    } else {
                        i - 1
                    };
                    assert(after[i] == before[old_i]);
                    let j = choose|j: int|
                        0 <= j < k && j < store@.len() && store@[j] == before[old_i];
                    assert(store@[j] == all@[i]@);
                }
            }
            assert forall|j: int| 0 <= j < k + 1 implies after.contains(
                #[trigger] store@[j],
            ) by {
                if j == k {
                    assert(after[p as int] == store@[j]);
                } else {
                    assert(before.contains(store@[j]));
                    let i = choose|i: int| 0 <= i < before.len() && before[i] == store@[j];
                    if i < p {
                        assert(after[i] == store@[j]);
                    } else {
                        assert(after[i + 1] == store@[j]);
                    }
                }
            }
        }
        k = k + 1;
    }
    proof {
        assert forall|i: int| 0 <= i < all@.len() implies store@.contains(#[trigger] all@[i]@) by {
            let j = choose|j: int| 0 <= j < k && j < store@.len() && store@[j] == all@[i]@;
            assert(store@[j] == all@[i]@);
        }
    }
    all
}

/// The laps of the activity with the given identity, in the order in which
/// they were recorded; none where no activity has that identity.
pub fn get_laps_by_session_id(store: &Store, session_id: i64) -> (laps: Vec<Lap>)
    requires
        store.wf(),
    ensures
        laps@ == if 1 <= session_id <= store@.len() {
            store@[session_id - 1].laps
        } else {
            Seq::<Lap>::empty()
        },
{
    if session_id < 1 || session_id as u128 > store.sessions.len() as u128 {
        return Vec::new();
    }
    let at: usize = (session_id - 1) as usize;
    let laps = store.sessions[at].laps.clone();
    assert(laps@ =~= store@[session_id - 1].laps);
    laps
}

/// The samples of the activity with the given identity, in the order in
/// which they were recorded; none where no activity has that identity.
pub fn get_records_by_session_id(store: &Store, session_id: i64) -> (records: Vec<Record>)
    requires
        store.wf(),
    ensures
        records@ == if 1 <= session_id <= store@.len() {
            store@[session_id - 1].records
        } else {
            Seq::<Record>::empty()
        },
{
    if session_id < 1 || session_id as u128 > store.sessions.len() as u128 {
        return Vec::new();
    }
    let at: usize = (session_id - 1) as usize;
    let records = store.sessions[at].records.clone();
    assert(records@ =~= store@[session_id - 1].records);
    records
}

/// The rollup of all stored activities. The year is taken but does not
/// narrow the rollup: every stored activity counts, whatever its year.
pub fn get_overall_summary(store: &Store, year: i64) -> (summary: Summary)
    requires
        store.wf(),
    ensures
        summary@ == overall_rollup(store@),
{
    let mut distance: u128 = 0;
    let mut time: u128 = 0;
    let mut i: usize = 0;
    assert(store@.take(0) =~= Seq::<SessionView>::empty());
    while i < store.sessions.len()
        invariant
            i <= store.sessions.len(),
            distance == total(store@.take(i as int), Measure::Distance),
            time == total(store@.take(i as int), Measure::MovingTime),
        decreases store.sessions.len() - i,
    {
        proof {
            assert(store@.take(i as int + 1).drop_last() =~= store@.take(i as int));
            lemma_total_bounded(store@.take(i as int + 1), Measure::Distance);
            lemma_total_bounded(store@.take(i as int + 1), Measure::MovingTime);
        }
        distance = distance + store.sessions[i].total_distance as u128;
        time = time + store.sessions[i].total_moving_time as u128;
        i = i + 1;
    }
    assert(store@.take(i as int) =~= store@);
    Summary {
        sub_sport: None,
        total_distance: distance,
        total_time: time,
        rides_count: store.sessions.len() as i64,
    }
}

/// One rollup for each sub-sport that occurs in the store, the sub-sports in
/// the order in which they were first stored. The year is taken but does not
/// narrow the rollups.
pub fn get_detailed_summary(store: &Store, year: i64) -> (summaries: Vec<Summary>)
    requires
        store.wf(),
    ensures
        summary_views(summaries@) == detailed_rollups(store@),
{
    let mut summaries: Vec<Summary> = Vec::new();
    let mut i: usize = 0;
    assert(store@.take(0) =~= Seq::<SessionView>::empty());
    while i < store.sessions.len()
        invariant
            i <= store.sessions.len(),
            store.wf(),
            summary_views(summaries@) =~= detailed_rollups(store@.take(i as int)),
        decreases store.sessions.len() - i,
    {
        let session = &store.sessions[i];
        let ghost seen = store@.take(i as int);
        let ghost next = store@.take(i as int + 1);
        let ghost label = session@.sub_sport;
        proof {
            assert(next.drop_last() =~= seen);
            assert(next.last() == session@);
            lemma_sub_sports_distinct(seen);
            assert(summary_views(summaries@).len() == summaries@.len());
            assert(detailed_rollups(seen).len() == sub_sports(seen).len());
        }
        let mut at: usize = 0;
        while at < summaries.len() && !label_is(&summaries[at], &session.sub_sport)
            invariant
                at <= summaries.len(),
                label == session@.sub_sport,
                summaries@.len() == sub_sports(seen).len(),
                summary_views(summaries@) =~= detailed_rollups(seen),
                forall|j: int| 0 <= j < at ==> sub_sports(seen)[j] != label,
            decreases summaries.len() - at,
        {
            assert(summary_views(summaries@)[at as int] == summaries@[at as int]@);
            at = at + 1;
        }
        if at < summaries.len() {
            assert(summary_views(summaries@)[at as int] == summaries@[at as int]@);
            assert(sub_sports(seen)[at as int] == label);
            proof {
                lemma_total_in_bounded(next, label, Measure::Distance);
                lemma_total_in_bounded(next, label, Measure::MovingTime);
            }
            let updated = Summary {
                sub_sport: Some(session.sub_sport.clone()),
                total_distance: summaries[at].total_distance + session.total_distance as u128,
                total_time: summaries[at].total_time + session.total_moving_time as u128,
                rides_count: summaries[at].rides_count + 1,
            };
            let ghost before = summary_views(summaries@);
            summaries.set(at, updated);
            proof {
                assert(sub_sports(next) == sub_sports(seen));
                assert forall|j: int| 0 <= j < summaries@.len() implies summary_views(
                    summaries@,
                )[j] == detailed_rollups(next)[j] by {
                    if j != at {
                        assert(summary_views(summaries@)[j] == before[j]);
                        assert(sub_sports(seen)[j] != label);
                    }
                }
            }
        } else {
            proof {
                assert(!sub_sports(seen).contains(label));
                lemma_absent_sub_sport(seen, label, Measure::Rides);
                lemma_absent_sub_sport(seen, label, Measure::Distance);
                lemma_absent_sub_sport(seen, label, Measure::MovingTime);
            }
            let fresh = Summary {
                sub_sport: Some(session.sub_sport.clone()),
                total_distance: session.total_distance as u128,
                total_time: session.total_moving_time as u128,
                rides_count: 1,
            };
            let ghost before = summary_views(summaries@);
            summaries.push(fresh);
            proof {
                assert(sub_sports(next) == sub_sports(seen).push(label));
                assert forall|j: int| 0 <= j < summaries@.len() implies summary_views(
                    summaries@,
                )[j] == detailed_rollups(next)[j] by {
                    if j < before.len() {
                        assert(summary_views(summaries@)[j] == before[j]);
                        assert(sub_sports(seen)[j] != label);
                    }
                }
            }
        }
        i = i + 1;
    }
    assert(store@.take(i as int) =~= store@);
    summaries
}

/// Whether the rollup is that of the given sub-sport.
fn label_is(summary: &Summary, sub_sport: &String) -> (same: bool)
    ensures
        same == (summary@.sub_sport == Some(sub_sport@)),
{
    match &summary.sub_sport {
        Some(label) => *label == *sub_sport,
        None => false,
    }
}

/// Two laps that agree in everything but their identity.
pub open spec fn same_lap(a: Lap, b: Lap) -> bool {
    Lap { id: None, ..a } == Lap { id: None, ..b }
}

/// Two samples that agree in everything but their identity.
pub open spec fn same_record(a: Record, b: Record) -> bool {
    Record { id: None, ..a } == Record { id: None, ..b }
}

/// Two activities that agree in everything but the identities of
/// themselves, their laps and their samples.
pub open spec fn same_activity(a: SessionView, b: SessionView) -> bool {
    &&& SessionView { id: None, laps: Seq::empty(), records: Seq::empty(), ..a } == SessionView {
        id: None,
        laps: Seq::empty(),
        records: Seq::empty(),
        ..b
    }
    &&& a.laps.len() == b.laps.len()
    &&& forall|j: int| 0 <= j < a.laps.len() ==> same_lap(#[trigger] a.laps[j], b.laps[j])
    &&& a.records.len() == b.records.len()
    &&& forall|j: int|
        0 <= j < a.records.len() ==> same_record(#[trigger] a.records[j], b.records[j])
}

/// Containment is overlap: an activity that lies within another, or holds
/// another within it, overlaps it, and so does one that starts or ends within
/// another.
pub proof fn lemma_overlap_cases(a: SessionView, b: SessionView)
    ensures
        overlap(a, b) == overlap(b, a),
        overlap(a, b) <==> {
            ||| interval_start(b) <= interval_start(a) <= interval_end(b)
            ||| interval_start(b) <= interval_end(a) <= interval_end(b)
            ||| interval_start(a) <= interval_start(b) && interval_end(b) <= interval_end(a)
        },
{
}

/// Accepting an activity keeps the rules of the store.
pub proof fn lemma_insert_keeps_rules(stored: Seq<SessionView>, candidate: SessionView)
    requires
        consistent(stored),
        insert_outcome(stored, candidate) is Ok,
    ensures
        consistent(insert_outcome(stored, candidate)->Ok_0),
{
    let after = stored.push(persisted(stored, candidate));
    assert(after.drop_last() =~= stored);
    lemma_push_keeps_numbering(stored, candidate);
    assert forall|i: int, j: int| 0 <= i < j < after.len() implies !overlap(
        #[trigger] after[i],
        #[trigger] after[j],
    ) by {
        if j == stored.len() {
            assert(!overlap(stored[i], candidate));
        }
    }
}

/// Two fresh activities that overlap neither each other nor anything stored
/// are both accepted, whichever is offered first, as long as the store has
/// identities left for the rows of both.
pub proof fn lemma_disjoint_inserts_succeed(
    stored: Seq<SessionView>,
    a: SessionView,
    b: SessionView,
)
    requires
        consistent(stored),
        fresh(a),
        fresh(b),
        !overlap(a, b),
        !conflicts(stored, a),
        !conflicts(stored, b),
        stored.len() + 2 <= i64::MAX,
        lap_rows(stored) + a.laps.len() + b.laps.len() <= i64::MAX,
        record_rows(stored) + a.records.len() + b.records.len() <= i64::MAX,
    ensures
        insert_outcome(stored, a) is Ok,
        insert_outcome(insert_outcome(stored, a)->Ok_0, b) is Ok,
        insert_outcome(stored, b) is Ok,
        insert_outcome(insert_outcome(stored, b)->Ok_0, a) is Ok,
{
    let with_a = stored.push(persisted(stored, a));
    let with_b = stored.push(persisted(stored, b));
    assert(with_a.drop_last() =~= stored);
    assert(with_b.drop_last() =~= stored);
    assert(!conflicts(with_a, b)) by {
        assert forall|i: int| 0 <= i < with_a.len() implies !overlap(
            #[trigger] with_a[i],
            b,
        ) by {
            if i < stored.len() {
                assert(!overlap(stored[i], b));
            }
        }
    }
    assert(!conflicts(with_b, a)) by {
        assert forall|i: int| 0 <= i < with_b.len() implies !overlap(
            #[trigger] with_b[i],
            a,
        ) by {
            if i < stored.len() {
                assert(!overlap(stored[i], a));
            }
        }
    }
}

/// Two fresh activities that do not overlap are both accepted by an empty
/// store, whichever is offered first, as long as there are identities for
/// the rows of both.
pub proof fn lemma_disjoint_pair_enters_empty_store(a: SessionView, b: SessionView)
    requires
        fresh(a),
        fresh(b),
        !overlap(a, b),
        a.laps.len() + b.laps.len() <= i64::MAX,
        a.records.len() + b.records.len() <= i64::MAX,
    ensures
        insert_outcome(Seq::empty(), a) is Ok,
        insert_outcome(insert_outcome(Seq::empty(), a)->Ok_0, b) is Ok,
        insert_outcome(Seq::empty(), b) is Ok,
        insert_outcome(insert_outcome(Seq::empty(), b)->Ok_0, a) is Ok,
{
    let none = Seq::<SessionView>::empty();
    assert(none.take(0) =~= none);
    lemma_disjoint_inserts_succeed(none, a, b);
}

/// Once an activity is accepted, any activity that starts within its
/// interval, end points included, is turned away as a duplicate.
pub proof fn lemma_overlapping_insert_rejected(
    stored: Seq<SessionView>,
    a: SessionView,
    b: SessionView,
)
    requires
        insert_outcome(stored, a) is Ok,
        a.start_time <= b.start_time,
        interval_start(b) <= interval_end(a),
    ensures
        insert_outcome(insert_outcome(stored, a)->Ok_0, b) == Err::<Seq<SessionView>, StoreError>(
            StoreError::DuplicateActivity,
        ),
{
    let with_a = stored.push(persisted(stored, a));
    assert(overlap(with_a[stored.len() as int], b));
}

/// What is accepted is kept as it was offered: the stored activity, its laps
/// and its samples agree with the offered ones in number, in order and in
/// every value, and differ from them in their identities alone, which they
/// now have. What was stored before stays as it was.
pub proof fn lemma_insert_round_trip(stored: Seq<SessionView>, candidate: SessionView)
    requires
        insert_outcome(stored, candidate) is Ok,
    ensures
        insert_outcome(stored, candidate)->Ok_0.len() == stored.len() + 1,
        insert_outcome(stored, candidate)->Ok_0.take(stored.len() as int) == stored,
        same_activity(insert_outcome(stored, candidate)->Ok_0.last(), candidate),
        !fresh(insert_outcome(stored, candidate)->Ok_0.last()),
{
    let after = stored.push(persisted(stored, candidate));
    assert(after.take(stored.len() as int) =~= stored);
}

/// The rows held for some of the activities are among those held for all.
pub proof fn lemma_rows_grow(stored: Seq<SessionView>, k: int)
    requires
        0 <= k <= stored.len(),
    ensures
        lap_rows(stored.take(k)) <= lap_rows(stored),
        record_rows(stored.take(k)) <= record_rows(stored),
    decreases stored.len() - k,
{
    if k < stored.len() {
        lemma_rows_grow(stored, k + 1);
        assert(stored.take(k + 1).drop_last() =~= stored.take(k));
    } else {
        assert(stored.take(k) =~= stored);
    }
}

/// Whether the laps carry the identities that count on from `base`.
fn laps_numbered_from(laps: &Vec<Lap>, base: i64) -> (yes: bool)
    requires
        0 <= base,
        base + laps@.len() <= i64::MAX,
    ensures
        yes == (laps@ == numbered_laps(laps@, base as int)),
{
    let mut j: usize = 0;
    while j < laps.len()
        invariant
            j <= laps.len(),
            0 <= base,
            base + laps@.len() <= i64::MAX,
            forall|k: int| 0 <= k < j ==> laps@[k] == numbered_laps(laps@, base as int)[k],
        decreases laps.len() - j,
    {
        let expected: i64 = base + (j as i64) + 1;
        let numbered = match laps[j].id {
            Some(id) => id == expected,
            None => false,
        };
        if !numbered {
            assert(laps@[j as int] != numbered_laps(laps@, base as int)[j as int]);
            return false;
        }
        j = j + 1;
    }
    assert(laps@ =~= numbered_laps(laps@, base as int));
    true
}

/// Whether the samples carry the identities that count on from `base`.
fn records_numbered_from(records: &Vec<Record>, base: i64) -> (yes: bool)
    requires
        0 <= base,
        base + records@.len() <= i64::MAX,
    ensures
        yes == (records@ == numbered_records(records@, base as int)),
{
    let mut j: usize = 0;
    while j < records.len()
        invariant
            j <= records.len(),
            0 <= base,
            base + records@.len() <= i64::MAX,
            forall|k: int|
                0 <= k < j ==> records@[k] == numbered_records(records@, base as int)[k],
        decreases records.len() - j,
    {
        let expected: i64 = base + (j as i64) + 1;
        let numbered = match records[j].id {
            Some(id) => id == expected,
            None => false,
        };
        if !numbered {
            assert(records@[j as int] != numbered_records(records@, base as int)[j as int]);
            return false;
        }
        j = j + 1;
    }
    assert(records@ =~= numbered_records(records@, base as int));
    true
}

/// Whether the session overlaps one of the first `upto` sessions of the list.
fn overlaps_earlier(sessions: &Vec<Session>, upto: usize, session: &Session) -> (found: bool)
    requires
        upto <= sessions.len(),
    ensures
        found == exists|j: int|
            0 <= j < upto && #[trigger] overlap(session_views(sessions@)[j], session@),
{
    let mut j: usize = 0;
    while j < upto
        invariant
            j <= upto,
            upto <= sessions.len(),
            forall|k: int|
                0 <= k < j ==> !#[trigger] overlap(session_views(sessions@)[k], session@),
        decreases upto - j,
    {
        if overlapping(&sessions[j], session) {
            assert(overlap(session_views(sessions@)[j as int], session@));
            return true;
        }
        j = j + 1;
    }
    false
}

impl Store {
    /// Takes up activities that were persisted earlier, in the order of their
    /// identities, each with its laps and samples in the order of theirs. They
    /// make a store exactly when they keep the rules of one; otherwise they
    /// are refused as a whole.
    pub fn restore(sessions: Vec<Session>) -> (outcome: Result<Store, StoreError>)
        ensures
            match outcome {
                Ok(store) => {
                    &&& consistent(session_views(sessions@))
                    &&& store.wf()
                    &&& store@ == session_views(sessions@)
                },
                Err(e) => {
                    &&& !consistent(session_views(sessions@))
                    &&& e == StoreError::ConstraintViolation
                },
            },
    {
        let ghost all = session_views(sessions@);
        let mut lap_count: i64 = 0;
        let mut record_count: i64 = 0;
        let mut i: usize = 0;
        assert(all.take(0) =~= Seq::<SessionView>::empty());
        while i < sessions.len()
            invariant
                i <= sessions.len(),
                all == session_views(sessions@),
                i <= i64::MAX,
                0 <= lap_count == lap_rows(all.take(i as int)),
                0 <= record_count == record_rows(all.take(i as int)),
                forall|k: int| 0 <= k < i ==> (#[trigger] all[k]).id == Some((k + 1) as i64),
                forall|k: int| 0 <= k < i ==> #[trigger] rows_numbered(all, k),
                forall|a: int, b: int|
                    0 <= a < b < i ==> !overlap(#[trigger] all[a], #[trigger] all[b]),
            decreases sessions.len() - i,
        {
            let session = &sessions[i];
            assert(all[i as int] == session@);
            proof {
                assert(all.take(i as int + 1).drop_last() =~= all.take(i as int));
                lemma_rows_grow(all, i as int + 1);
            }
            if i as u128 >= i64::MAX as u128 {
                return Err(StoreError::ConstraintViolation);
            }
            let expected: i64 = i as i64 + 1;
            let identified = match session.id {
                Some(id) => id == expected,
                None => false,
            };
            if !identified {
                return Err(StoreError::ConstraintViolation);
            }
            let lap_total: i128 = lap_count as i128 + session.laps.len() as i128;
            let record_total: i128 = record_count as i128 + session.records.len() as i128;
            if lap_total > i64::MAX as i128 || record_total > i64::MAX as i128 {
                return Err(StoreError::ConstraintViolation);
            }
            if !laps_numbered_from(&session.laps, lap_count) || !records_numbered_from(
                &session.records,
                record_count,
            ) {
                assert(!rows_numbered(all, i as int));
                return Err(StoreError::ConstraintViolation);
            }
            assert(rows_numbered(all, i as int));
            if overlaps_earlier(&sessions, i, session) {
                proof {
                    let j = choose|j: int| 0 <= j < i && #[trigger] overlap(all[j], session@);
                    assert(overlap(all[j], all[i as int]));
                }
                return Err(StoreError::ConstraintViolation);
            }
            proof {
                assert forall|a: int, b: int| 0 <= a < b < i + 1 implies !overlap(
                    #[trigger] all[a],
                    #[trigger] all[b],
                ) by {
                    if b == i {
                        assert(!overlap(all[a], session@));
                        lemma_overlap_cases(all[a], all[b]);
                    }
                }
            }
            lap_count = lap_total as i64;
            record_count = record_total as i64;
            i = i + 1;
        }
        assert(all.take(i as int) =~= all);
        Ok(Store { sessions, lap_count, record_count })
    }
}

/// The stored activity with the given identity, if there is one.
pub fn get_session_by_id(store: &Store, session_id: i64) -> (session: Option<Session>)
    requires
        store.wf(),
    ensures
        match session {
            Some(s) => 1 <= session_id <= store@.len() && s@ == store@[session_id - 1],
            None => !(1 <= session_id <= store@.len()),
        },
{
    if session_id < 1 || session_id as u128 > store.sessions.len() as u128 {
        return None;
    }
    let at: usize = (session_id - 1) as usize;
    Some(store.sessions[at].duplicate())
}

impl StoreError {
    /// What a report says of the error.
    pub open spec fn text(self) -> Seq<char> {
        match self {
            StoreError::DuplicateActivity => "Session already exists during this time period!"@,
            StoreError::StorageUnavailable => "Could not insert session!"@,
            StoreError::ConstraintViolation => "Stored sessions break the rules of the store!"@,
        }
    }

    /// Writes what a report says of the error.
    pub fn message(&self) -> (message: String)
        ensures
            message@ == self.text(),
    {
        match self {
            StoreError::DuplicateActivity => "Session already exists during this time period!".to_owned(),
            StoreError::StorageUnavailable => "Could not insert session!".to_owned(),
            StoreError::ConstraintViolation => "Stored sessions break the rules of the store!".to_owned(),
        }
    }
}

} // verus!
