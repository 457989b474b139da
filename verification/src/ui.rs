//! What the dashboard shows, computed and ready to be drawn: the totals per
//! riding category and the moving time per calendar week.

pub mod util;

use vstd::prelude::*;
use vstd::string::*;
use crate::calendar::{iso_week, iso_week_of};
use crate::parser::{Session, SessionView};
use crate::db::session_views;
use crate::summary::{summary_views, Summary, SummaryView};
use crate::text::{decimal, render_decimal};
use crate::ui::util::{hour_minute_text, moving_time_to_hour_minute_string};

verus! {

/// The totals on show: overall, and for indoor, road and off-road riding.
/// Distances are in thousandths of a metre, durations in thousandths of a
/// second.
#[derive(Clone, Copy, Debug, PartialEq, Eq, Structural)]
pub struct Total {
    pub overall_distance: u128,
    pub overall_duration: u128,
    pub overall_rides_count: i64,
    pub indoor_distance: u128,
    pub indoor_duration: u128,
    pub indoor_rides_count: i64,
    pub road_distance: u128,
    pub road_duration: u128,
    pub road_rides_count: i64,
    pub mtb_distance: u128,
    pub mtb_duration: u128,
    pub mtb_rides_count: i64,
}

/// The sub-sport of indoor riding.
pub open spec fn indoor_label() -> Seq<char> {
    "indoor_cycling"@
}

/// The sub-sport of road riding.
pub open spec fn road_label() -> Seq<char> {
    "road_cycling"@
}

/// The sub-sport of off-road riding.
pub open spec fn mtb_label() -> Seq<char> {
    "mountain_bike_ride"@
}

/// The first rollup of the given sub-sport, or an empty rollup where there
/// is none.
pub open spec fn rollup_labelled(rollups: Seq<SummaryView>, label: Seq<char>) -> SummaryView
    decreases rollups.len(),
{
    if rollups.len() == 0 {
        Summary::zero(Some(label))
    } else if rollups[0].sub_sport == Some(label) {
        rollups[0]
    } else {
        rollup_labelled(rollups.drop_first(), label)
    }
}

/// The totals that an overall rollup and the detailed rollups amount to.
pub open spec fn totals_of(overall: SummaryView, detailed: Seq<SummaryView>) -> Total {
    let indoor = rollup_labelled(detailed, indoor_label());
    let road = rollup_labelled(detailed, road_label());
    let mtb = rollup_labelled(detailed, mtb_label());
    Total {
        overall_distance: overall.total_distance as u128,
        overall_duration: overall.total_time as u128,
        overall_rides_count: overall.rides_count as i64,
        indoor_distance: indoor.total_distance as u128,
        indoor_duration: indoor.total_time as u128,
        indoor_rides_count: indoor.rides_count as i64,
        road_distance: road.total_distance as u128,
        road_duration: road.total_time as u128,
        road_rides_count: road.rides_count as i64,
        mtb_distance: mtb.total_distance as u128,
        mtb_duration: mtb.total_time as u128,
        mtb_rides_count: mtb.rides_count as i64,
    }
}

/// Finds the first rollup of a sub-sport: its distance, its duration and its
/// number of rides, all zero where there is none.
fn find_rollup(detailed: &Vec<Summary>, label: &str) -> (found: (u128, u128, i64))
    ensures
        found.0 == rollup_labelled(summary_views(detailed@), label@).total_distance,
        found.1 == rollup_labelled(summary_views(detailed@), label@).total_time,
        found.2 == rollup_labelled(summary_views(detailed@), label@).rides_count,
{
    let wanted: String = label.to_owned();
    let ghost rollups = summary_views(detailed@);
    let mut i: usize = 0;
    assert(rollups.skip(0) =~= rollups);
    while i < detailed.len()
        invariant
            i <= detailed.len(),
            wanted@ == label@,
            rollups == summary_views(detailed@),
            rollup_labelled(rollups, label@) == rollup_labelled(rollups.skip(i as int), label@),
        decreases detailed.len() - i,
    {
        assert(rollups.skip(i as int).drop_first() =~= rollups.skip(i as int + 1));
        assert(rollups[i as int] == detailed@[i as int]@);
        let same = match &detailed[i].sub_sport {
            Some(sub_sport) => *sub_sport == wanted,
            None => false,
        };
        if same {
            return (detailed[i].total_distance, detailed[i].total_time, detailed[i].rides_count);
        }
        i = i + 1;
    }
    (0, 0, 0)
}

impl Total {
    /// Picks the totals on show out of the overall rollup and the detailed
    /// ones.
    pub fn new(overall: &Summary, detailed: &Vec<Summary>) -> (total: Total)
        ensures
            total == totals_of(overall@, summary_views(detailed@)),
    {
        let indoor = find_rollup(detailed, "indoor_cycling");
        let road = find_rollup(detailed, "road_cycling");
        let mtb = find_rollup(detailed, "mountain_bike_ride");
        Total {
            overall_distance: overall.total_distance,
            overall_duration: overall.total_time,
            overall_rides_count: overall.rides_count,
            indoor_distance: indoor.0,
            indoor_duration: indoor.1,
            indoor_rides_count: indoor.2,
            road_distance: road.0,
            road_duration: road.1,
            road_rides_count: road.2,
            mtb_distance: mtb.0,
            mtb_duration: mtb.1,
            mtb_rides_count: mtb.2,
        }
    }
}

/// The moving time of one calendar week, in thousandths of a second.
#[derive(Clone, Copy, Debug, PartialEq, Eq, Structural)]
pub struct WeekBucket {
    pub week: u32,
    pub total_moving_time: u128,
}

impl WeekBucket {
    /// The height of the week's bar: its moving time in whole seconds, or
    /// the largest height there is where the seconds exceed it.
    pub open spec fn bar_height(self) -> u64 {
        if self.total_moving_time / 1000 <= u64::MAX {
            (self.total_moving_time / 1000) as u64
        } else {
            u64::MAX
        }
    }

    /// The height of the week's bar in the weekly chart.
    pub fn seconds(&self) -> (height: u64)
        ensures
            height == self.bar_height(),
    {
        let seconds: u128 = self.total_moving_time / 1000;
        if seconds <= u64::MAX as u128 {
            seconds as u64
        } else {
            u64::MAX
        }
    }
}

/// Sum of the moving times entered under one week.
pub open spec fn time_in_week(entries: Seq<(u32, u64)>, week: u32) -> nat
    decreases entries.len(),
{
    if entries.len() == 0 {
        0
    } else {
        time_in_week(entries.drop_last(), week) + if entries.last().0 == week {
            entries.last().1 as nat
        } else {
            0
        }
    }
}

/// The weeks that occur, each once, in the order of first occurrence.
pub open spec fn weeks_in(entries: Seq<(u32, u64)>) -> Seq<u32>
    decreases entries.len(),
{
    if entries.len() == 0 {
        Seq::empty()
    } else {
        let earlier = weeks_in(entries.drop_last());
        if earlier.contains(entries.last().0) {
            earlier
        } else {
            earlier.push(entries.last().0)
        }
    }
}

/// One bucket for each week that occurs, in the order of first occurrence,
/// each with the sum of all that is entered under its week.
pub open spec fn week_buckets(entries: Seq<(u32, u64)>) -> Seq<WeekBucket> {
    Seq::new(
        weeks_in(entries).len(),
        |i: int|
            WeekBucket {
                week: weeks_in(entries)[i],
                total_moving_time: time_in_week(entries, weeks_in(entries)[i]) as u128,
            },
    )
}

/// How many activities start beyond the calendar's range and so have no
/// week.
pub open spec fn undated(sessions: Seq<SessionView>) -> nat
    decreases sessions.len(),
{
    if sessions.len() == 0 {
        0
    } else {
        undated(sessions.drop_last()) + if iso_week_of(sessions.last().start_time) is None {
            1nat
        } else {
            0nat
        }
    }
}

/// The week and the moving time of each activity that has a week, in order.
/// An activity without one is left out, and counted by [`undated`].
pub open spec fn week_entries(sessions: Seq<SessionView>) -> Seq<(u32, u64)>
    decreases sessions.len(),
{
    if sessions.len() == 0 {
        Seq::empty()
    } else {
        let earlier = week_entries(sessions.drop_last());
        match iso_week_of(sessions.last().start_time) {
            Some(week) => earlier.push((week, sessions.last().total_moving_time)),
            None => earlier,
        }
    }
}

/// The line under a bar of the weekly chart: `W7 (3h 20m)`.
pub open spec fn week_label_text(bucket: WeekBucket) -> Seq<char> {
    seq!['W'] + decimal(bucket.week as nat) + seq![' ', '('] + hour_minute_text(
        bucket.total_moving_time as nat,
    ) + seq![')']
}

/// No sum over `n` entries exceeds `n` times the largest single amount.
pub proof fn lemma_week_time_bounded(entries: Seq<(u32, u64)>, week: u32)
    ensures
        time_in_week(entries, week) <= entries.len() * u64::MAX,
    decreases entries.len(),
{
    if entries.len() > 0 {
        lemma_week_time_bounded(entries.drop_last(), week);
    }
}

/// Nothing is entered under a week that does not occur.
pub proof fn lemma_absent_week(entries: Seq<(u32, u64)>, week: u32)
    requires
        !weeks_in(entries).contains(week),
    ensures
        time_in_week(entries, week) == 0,
    decreases entries.len(),
{
    if entries.len() > 0 {
        let earlier = weeks_in(entries.drop_last());
        let last = entries.last().0;
        if !earlier.contains(last) {
            assert(earlier.push(last)[earlier.len() as int] == last);
            assert forall|i: int| 0 <= i < earlier.len() implies earlier[i] != week by {
                assert(earlier.push(last)[i] == earlier[i]);
            }
        }
        lemma_absent_week(entries.drop_last(), week);
    }
}

/// Each week is listed once.
pub proof fn lemma_weeks_distinct(entries: Seq<(u32, u64)>)
    ensures
        weeks_in(entries).no_duplicates(),
    decreases entries.len(),
{
    if entries.len() > 0 {
        lemma_weeks_distinct(entries.drop_last());
    }
}

/// Sums the moving times week by week. The buckets stand in the order in
/// which their weeks first occur, which need not be the order of time.
pub fn bucket_by_week(entries: &Vec<(u32, u64)>) -> (buckets: Vec<WeekBucket>)
    ensures
        buckets@ == week_buckets(entries@),
{
    let mut buckets: Vec<WeekBucket> = Vec::new();
    let mut i: usize = 0;
    assert(entries@.take(0) =~= Seq::<(u32, u64)>::empty());
    while i < entries.len()
        invariant
            i <= entries.len(),
            buckets@ =~= week_buckets(entries@.take(i as int)),
        decreases entries.len() - i,
    {
        let (week, amount) = entries[i];
        let ghost seen = entries@.take(i as int);
        let ghost next = entries@.take(i as int + 1);
        proof {
            assert(next.drop_last() =~= seen);
            assert(next.last() == entries@[i as int]);
            lemma_weeks_distinct(seen);
            assert(week_buckets(seen).len() == weeks_in(seen).len());
        }
        let mut at: usize = 0;
        while at < buckets.len() && buckets[at].week != week
            invariant
                at <= buckets.len(),
                buckets@ =~= week_buckets(seen),
                buckets@.len() == weeks_in(seen).len(),
                forall|j: int| 0 <= j < at ==> weeks_in(seen)[j] != week,
            decreases buckets.len() - at,
        {
            at = at + 1;
        }
        if at < buckets.len() {
            assert(weeks_in(seen)[at as int] == week);
            proof {
                lemma_week_time_bounded(next, week);
            }
            let updated = WeekBucket {
                week,
                total_moving_time: buckets[at].total_moving_time + amount as u128,
            };
            let ghost before = buckets@;
            buckets.set(at, updated);
            proof {
                assert(weeks_in(next) == weeks_in(seen));
                assert forall|j: int| 0 <= j < buckets@.len() implies buckets@[j] == week_buckets(
                    next,
                )[j] by {
                    if j != at {
                        assert(buckets@[j] == before[j]);
                        assert(weeks_in(seen)[j] != week);
                    }
                }
            }
        } else {
            proof {
                assert(!weeks_in(seen).contains(week));
                lemma_absent_week(seen, week);
            }
            let ghost before = buckets@;
            buckets.push(WeekBucket { week, total_moving_time: amount as u128 });
            proof {
                assert(weeks_in(next) == weeks_in(seen).push(week));
                assert forall|j: int| 0 <= j < buckets@.len() implies buckets@[j] == week_buckets(
                    next,
                )[j] by {
                    if j < before.len() {
                        assert(buckets@[j] == before[j]);
                        assert(weeks_in(seen)[j] != week);
                    }
                }
            }
        }
        i = i + 1;
    }
    assert(entries@.take(i as int) =~= entries@);
    buckets
}

/// Looks up the week of each activity. An activity that has none is left
/// out of the entries and counted instead.
pub fn week_entries_of(sessions: &Vec<Session>) -> (found: (Vec<(u32, u64)>, usize))
    ensures
        found.0@ == week_entries(session_views(sessions@)),
        found.1 == undated(session_views(sessions@)),
{
    let ghost all = session_views(sessions@);
    let mut entries: Vec<(u32, u64)> = Vec::new();
    let mut left_out: usize = 0;
    let mut i: usize = 0;
    assert(all.take(0) =~= Seq::<SessionView>::empty());
    while i < sessions.len()
        invariant
            i <= sessions.len(),
            all == session_views(sessions@),
            entries@ == week_entries(all.take(i as int)),
            left_out == undated(all.take(i as int)),
            left_out <= i,
        decreases sessions.len() - i,
    {
        proof {
            assert(all.take(i as int + 1).drop_last() =~= all.take(i as int));
            assert(all.take(i as int + 1).last() == sessions@[i as int]@);
        }
        match iso_week(sessions[i].start_time) {
            Some(week) => {
                entries.push((week, sessions[i].total_moving_time));
            },
            None => {
                left_out = left_out + 1;
            },
        }
        i = i + 1;
    }
    assert(all.take(i as int) =~= all);
    (entries, left_out)
}

/// The data of the weekly chart: the moving time week by week, and the
/// number of activities that are in no week because they start beyond the
/// calendar's range.
#[derive(Clone, Debug, PartialEq, Eq)]
pub struct WeeklyDurations {
    pub buckets: Vec<WeekBucket>,
    pub undated: usize,
}

/// The moving time of the activities week by week, for the weekly chart.
pub fn weekly_durations(sessions: &Vec<Session>) -> (weekly: WeeklyDurations)
    ensures
        weekly.buckets@ == week_buckets(week_entries(session_views(sessions@))),
        weekly.undated == undated(session_views(sessions@)),
{
    let (entries, left_out) = week_entries_of(sessions);
    WeeklyDurations { buckets: bucket_by_week(&entries), undated: left_out }
}

/// Writes the line under a bar of the weekly chart.
pub fn week_label(bucket: &WeekBucket) -> (label: String)
    ensures
        label@ == week_label_text(*bucket),
{
    proof {
        reveal_strlit("W");
        reveal_strlit(" (");
        reveal_strlit(")");
    }
    let mut label: String = "W".to_owned();
    label.append(render_decimal(bucket.week as u128).as_str());
    label.append(" (");
    label.append(moving_time_to_hour_minute_string(bucket.total_moving_time).as_str());
    label.append(")");
    assert(label@ =~= week_label_text(*bucket));
    label
}

} // verus!
