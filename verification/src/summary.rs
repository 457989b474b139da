//! Rollup summaries over stored activities.
//!
//! A rollup is a plain sum and count. The overall rollup takes every
//! activity; the detailed rollups take the activities of one sub-sport each,
//! the sub-sports in the order in which they first occur.

use vstd::prelude::*;
use crate::db::{get_detailed_summary, get_overall_summary, Store, StoreError};
use crate::parser::SessionView;

verus! {

/// Sums and a count over a set of activities: over all of them where
/// `sub_sport` is `None`, over those of one sub-sport otherwise.
#[derive(Clone, Debug, PartialEq, Eq)]
pub struct Summary {
    pub sub_sport: Option<String>,
    /// Thousandths of a metre.
    pub total_distance: u128,
    /// Moving time, in thousandths of a second.
    pub total_time: u128,
    pub rides_count: i64,
}

/// The mathematical content of a [`Summary`].
pub struct SummaryView {
    pub sub_sport: Option<Seq<char>>,
    pub total_distance: nat,
    pub total_time: nat,
    pub rides_count: int,
}

impl View for Summary {
    type V = SummaryView;

    open spec fn view(&self) -> SummaryView {
        SummaryView {
            sub_sport: match self.sub_sport {
                Some(s) => Some(s@),
                None => None,
            },
            total_distance: self.total_distance as nat,
            total_time: self.total_time as nat,
            rides_count: self.rides_count as int,
        }
    }
}

/// The contents of each summary of a sequence.
pub open spec fn summary_views(summaries: Seq<Summary>) -> Seq<SummaryView> {
    Seq::new(summaries.len(), |i: int| summaries[i]@)
}

/// What a rollup adds up.
pub enum Measure {
    /// The number of activities.
    Rides,
    /// Their distances, in thousandths of a metre.
    Distance,
    /// Their moving times, in thousandths of a second.
    MovingTime,
}

/// What one activity adds to a measure.
pub open spec fn contribution(session: SessionView, measure: Measure) -> nat {
    match measure {
        Measure::Rides => 1,
        Measure::Distance => session.total_distance as nat,
        Measure::MovingTime => session.total_moving_time as nat,
    }
}

/// Sum of a measure over all the activities.
pub open spec fn total(sessions: Seq<SessionView>, measure: Measure) -> nat
    decreases sessions.len(),
{
    if sessions.len() == 0 {
        0
    } else {
        total(sessions.drop_last(), measure) + contribution(sessions.last(), measure)
    }
}

/// Sum of a measure over the activities of one sub-sport.
pub open spec fn total_in(sessions: Seq<SessionView>, sub_sport: Seq<char>, measure: Measure) -> nat
    decreases sessions.len(),
{
    if sessions.len() == 0 {
        0
    } else {
        total_in(sessions.drop_last(), sub_sport, measure) + if sessions.last().sub_sport
            == sub_sport {
            contribution(sessions.last(), measure)
        } else {
            0
        }
    }
}

/// The rollup of all the activities.
pub open spec fn overall_rollup(sessions: Seq<SessionView>) -> SummaryView {
    SummaryView {
        sub_sport: None,
        total_distance: total(sessions, Measure::Distance),
        total_time: total(sessions, Measure::MovingTime),
        rides_count: sessions.len() as int,
    }
}

/// The sub-sports that occur, each once, in the order of first occurrence.
pub open spec fn sub_sports(sessions: Seq<SessionView>) -> Seq<Seq<char>>
    decreases sessions.len(),
{
    if sessions.len() == 0 {
        Seq::empty()
    } else {
        let earlier = sub_sports(sessions.drop_last());
        if earlier.contains(sessions.last().sub_sport) {
            earlier
        } else {
            earlier.push(sessions.last().sub_sport)
        }
    }
}

/// The rollup of the activities of one sub-sport.
pub open spec fn rollup_of(sessions: Seq<SessionView>, sub_sport: Seq<char>) -> SummaryView {
    SummaryView {
        sub_sport: Some(sub_sport),
        total_distance: total_in(sessions, sub_sport, Measure::Distance),
        total_time: total_in(sessions, sub_sport, Measure::MovingTime),
        rides_count: total_in(sessions, sub_sport, Measure::Rides) as int,
    }
}

/// One rollup for each of the given sub-sports, in their order.
pub open spec fn rollups_for(sessions: Seq<SessionView>, labels: Seq<Seq<char>>) -> Seq<
    SummaryView,
> {
    Seq::new(labels.len(), |i: int| rollup_of(sessions, labels[i]))
}

/// One rollup for each sub-sport that occurs, in the order of first
/// occurrence.
pub open spec fn detailed_rollups(sessions: Seq<SessionView>) -> Seq<SummaryView> {
    rollups_for(sessions, sub_sports(sessions))
}

/// What a rollup holds of a measure.
pub open spec fn measured(rollup: SummaryView, measure: Measure) -> int {
    match measure {
        Measure::Rides => rollup.rides_count,
        Measure::Distance => rollup.total_distance as int,
        Measure::MovingTime => rollup.total_time as int,
    }
}

/// Sum of what the given rollups hold of a measure.
pub open spec fn sum_of(rollups: Seq<SummaryView>, measure: Measure) -> int
    decreases rollups.len(),
{
    if rollups.len() == 0 {
        0
    } else {
        sum_of(rollups.drop_last(), measure) + measured(rollups.last(), measure)
    }
}

/// No sum over `n` activities exceeds `n` times the largest single amount,
/// and the rides of `n` activities are `n`.
pub proof fn lemma_total_bounded(sessions: Seq<SessionView>, measure: Measure)
    ensures
        total(sessions, measure) <= sessions.len() * u64::MAX,
        total(sessions, Measure::Rides) == sessions.len(),
    decreases sessions.len(),
{
    if sessions.len() > 0 {
        lemma_total_bounded(sessions.drop_last(), measure);
    }
}

/// The sums of one sub-sport are bounded by the number of activities, and
/// its rides are no more than the activities.
pub proof fn lemma_total_in_bounded(
    sessions: Seq<SessionView>,
    sub_sport: Seq<char>,
    measure: Measure,
)
    ensures
        total_in(sessions, sub_sport, measure) <= sessions.len() * u64::MAX,
        total_in(sessions, sub_sport, Measure::Rides) <= sessions.len(),
    decreases sessions.len(),
{
    if sessions.len() > 0 {
        lemma_total_in_bounded(sessions.drop_last(), sub_sport, measure);
    }
}

/// A sub-sport that does not occur has an empty rollup.
pub proof fn lemma_absent_sub_sport(
    sessions: Seq<SessionView>,
    sub_sport: Seq<char>,
    measure: Measure,
)
    requires
        !sub_sports(sessions).contains(sub_sport),
    ensures
        total_in(sessions, sub_sport, measure) == 0,
    decreases sessions.len(),
{
    if sessions.len() > 0 {
        let earlier = sub_sports(sessions.drop_last());
        let last = sessions.last().sub_sport;
        if !earlier.contains(last) {
            assert(earlier.push(last)[earlier.len() as int] == last);
            assert forall|i: int| 0 <= i < earlier.len() implies earlier[i] != sub_sport by {
                assert(earlier.push(last)[i] == earlier[i]);
            }
        }
        lemma_absent_sub_sport(sessions.drop_last(), sub_sport, measure);
    }
}

/// Each sub-sport is listed once, and exactly the sub-sports of the
/// activities are listed.
pub proof fn lemma_sub_sports_distinct(sessions: Seq<SessionView>)
    ensures
        sub_sports(sessions).no_duplicates(),
        forall|i: int|
            0 <= i < sessions.len() ==> sub_sports(sessions).contains(
                (#[trigger] sessions[i]).sub_sport,
            ),
    decreases sessions.len(),
{
    if sessions.len() > 0 {
        let front = sessions.drop_last();
        lemma_sub_sports_distinct(front);
        let earlier = sub_sports(front);
        let last = sessions.last().sub_sport;
        let all = sub_sports(sessions);
        if !earlier.contains(last) {
            assert(all[earlier.len() as int] == last);
        }
        assert forall|i: int| 0 <= i < sessions.len() implies all.contains(
            (#[trigger] sessions[i]).sub_sport,
        ) by {
            if i < front.len() {
                assert(front[i] == sessions[i]);
                let at = choose|at: int| 0 <= at < earlier.len() && earlier[at] == front[i].sub_sport;
                assert(all[at] == sessions[i].sub_sport);
            }
        }
    }
}

/// Sum of a measure over the activities whose sub-sport is one of the given
/// labels, a label that is listed twice counted twice.
pub open spec fn total_over(
    sessions: Seq<SessionView>,
    labels: Seq<Seq<char>>,
    measure: Measure,
) -> nat
    decreases labels.len(),
{
    if labels.len() == 0 {
        0
    } else {
        total_over(sessions, labels.drop_last(), measure) + total_in(
            sessions,
            labels.last(),
            measure,
        )
    }
}

proof fn lemma_total_over_push(
    sessions: Seq<SessionView>,
    next: SessionView,
    labels: Seq<Seq<char>>,
    measure: Measure,
)
    requires
        labels.no_duplicates(),
    ensures
        total_over(sessions.push(next), labels, measure) == total_over(sessions, labels, measure)
            + if labels.contains(next.sub_sport) {
            contribution(next, measure)
        } else {
            0
        },
    decreases labels.len(),
{
    assert(sessions.push(next).drop_last() =~= sessions);
    if labels.len() > 0 {
        let front = labels.drop_last();
        lemma_total_over_push(sessions, next, front, measure);
        if front.contains(next.sub_sport) {
            let at = choose|at: int| 0 <= at < front.len() && front[at] == next.sub_sport;
            assert(labels[at] == next.sub_sport);
            assert(labels.last() != next.sub_sport);
        } else if labels.last() == next.sub_sport {
            assert(labels[labels.len() - 1] == next.sub_sport);
        } else {
            assert forall|i: int| 0 <= i < labels.len() implies labels[i] != next.sub_sport by {
                if i < front.len() {
                    assert(front[i] == labels[i]);
                }
            }
        }
    }
}

proof fn lemma_sum_of_rollups(sessions: Seq<SessionView>, labels: Seq<Seq<char>>, measure: Measure)
    ensures
        sum_of(rollups_for(sessions, labels), measure) == total_over(sessions, labels, measure),
    decreases labels.len(),
{
    if labels.len() > 0 {
        assert(rollups_for(sessions, labels).drop_last() =~= rollups_for(
            sessions,
            labels.drop_last(),
        ));
        lemma_sum_of_rollups(sessions, labels.drop_last(), measure);
    }
}

proof fn lemma_total_over_sub_sports(sessions: Seq<SessionView>, measure: Measure)
    ensures
        total_over(sessions, sub_sports(sessions), measure) == total(sessions, measure),
    decreases sessions.len(),
{
    if sessions.len() > 0 {
        let front = sessions.drop_last();
        let last = sessions.last();
        let earlier = sub_sports(front);
        assert(sessions =~= front.push(last));
        lemma_total_over_sub_sports(front, measure);
        lemma_sub_sports_distinct(front);
        lemma_total_over_push(front, last, earlier, measure);
        if !earlier.contains(last.sub_sport) {
            assert(sub_sports(sessions).drop_last() =~= earlier);
            lemma_absent_sub_sport(front, last.sub_sport, measure);
        }
    }
}

/// The detailed rollups add up to the overall rollup, in rides, in distance
/// and in moving time: every activity is counted under exactly one
/// sub-sport.
pub proof fn lemma_detailed_add_up(sessions: Seq<SessionView>, measure: Measure)
    ensures
        sum_of(detailed_rollups(sessions), measure) == measured(overall_rollup(sessions), measure),
{
    lemma_sum_of_rollups(sessions, sub_sports(sessions), measure);
    lemma_total_over_sub_sports(sessions, measure);
    lemma_total_bounded(sessions, measure);
}

impl Summary {
    /// The rollup of no activities at all, overall or for one sub-sport.
    pub open spec fn zero(sub_sport: Option<Seq<char>>) -> SummaryView {
        SummaryView { sub_sport, total_distance: 0, total_time: 0, rides_count: 0 }
    }

    /// An empty rollup for the given sub-sport.
    pub fn new(sub_sport: String) -> (summary: Summary)
        ensures
            summary@ == Summary::zero(Some(sub_sport@)),
    {
        Summary { sub_sport: Some(sub_sport), total_distance: 0, total_time: 0, rides_count: 0 }
    }

    /// One rollup per sub-sport of the store. Where the store could not be
    /// had there are no rollups to give, and the reason comes back as it is.
    pub fn detailed(store: &Result<Store, StoreError>, year: i64) -> (summaries: Result<
        Vec<Summary>,
        StoreError,
    >)
        requires
            store matches Ok(held) ==> held.wf(),
        ensures
            match summaries {
                Ok(found) => store is Ok && summary_views(found@) == detailed_rollups(
                    store->Ok_0@,
                ),
                Err(e) => store == Err::<Store, StoreError>(e),
            },
    {
        match store {
            Ok(held) => Ok(get_detailed_summary(held, year)),
            Err(e) => Err(*e),
        }
    }

    /// The rollup of the whole store. Where the store could not be had there
    /// is no rollup to give, and the reason comes back as it is.
    pub fn overall(store: &Result<Store, StoreError>, year: i64) -> (summary: Result<
        Summary,
        StoreError,
    >)
        requires
            store matches Ok(held) ==> held.wf(),
        ensures
            match summary {
                Ok(found) => store is Ok && found@ == overall_rollup(store->Ok_0@),
                Err(e) => store == Err::<Store, StoreError>(e),
            },
    {
        match store {
            Ok(held) => Ok(get_overall_summary(held, year)),
            Err(e) => Err(*e),
        }
    }
}

} // verus!
