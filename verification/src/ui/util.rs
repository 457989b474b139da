//! Chart series and display text for single activities.

use vstd::prelude::*;
use vstd::string::*;
use crate::app::App;
use crate::calendar::{utc_text, utc_text_of};
use crate::parser::{Record, Session, SessionView};
use crate::text::{decimal, render_decimal, render_two_digits, two_digits};

verus! {

/// A duration given in thousandths of a second, as hours and minutes:
/// `1h 5m`. Seconds are dropped, not rounded.
pub open spec fn hour_minute_text(moving_time: nat) -> Seq<char> {
    decimal(moving_time / 3_600_000) + seq!['h', ' '] + decimal((moving_time / 60_000) % 60)
        + seq!['m']
}

/// A distance given in thousandths of a metre, in hundredths of a
/// kilometre, the nearest one and the upper one of two equally near.
pub open spec fn rounded_hundredths(distance: nat) -> nat {
    (distance + 5_000) / 10_000
}

/// A distance given in thousandths of a metre, as kilometres with two
/// decimals: `12.35km`.
pub open spec fn distance_text(distance: nat) -> Seq<char> {
    decimal(rounded_hundredths(distance) / 100) + seq!['.'] + two_digits(
        rounded_hundredths(distance) % 100,
    ) + seq!['k', 'm']
}

/// One line for an activity: when it started, its sub-sport, how long it
/// moved.
pub open spec fn session_line(stamp: Seq<char>, sub_sport: Seq<char>, moving_time: nat) -> Seq<
    char,
> {
    stamp + seq![' '] + sub_sport + seq![' '] + hour_minute_text(moving_time)
}

/// Writes a duration, given in thousandths of a second, as hours and minutes.
pub fn moving_time_to_hour_minute_string(moving_time: u128) -> (duration: String)
    ensures
        duration@ == hour_minute_text(moving_time as nat),
{
    proof {
        reveal_strlit("h ");
        reveal_strlit("m");
    }
    let hours: u128 = moving_time / 3_600_000;
    let minutes: u128 = (moving_time / 60_000) % 60;
    let mut duration = render_decimal(hours);
    duration.append("h ");
    duration.append(render_decimal(minutes).as_str());
    duration.append("m");
    assert(duration@ =~= hour_minute_text(moving_time as nat));
    duration
}

/// Writes the UTC date and time of a timestamp; `None` where the timestamp
/// lies beyond the calendar's range.
pub fn timestamp_as_string(timestamp: i64) -> (start_date: Option<String>)
    ensures
        match start_date {
            Some(t) => utc_text_of(timestamp) == Some(t@),
            None => utc_text_of(timestamp) is None,
        },
{
    utc_text(timestamp)
}

/// Writes a distance, given in thousandths of a metre, as kilometres with two
/// decimals.
pub fn distance_as_string(distance: u128) -> (text: String)
    ensures
        text@ == distance_text(distance as nat),
{
    proof {
        reveal_strlit(".");
        reveal_strlit("km");
    }
    let carry: u128 = if distance % 10_000 >= 5_000 {
        1
    } else {
        0
    };
    let hundredths: u128 = distance / 10_000 + carry;
    assert(hundredths == rounded_hundredths(distance as nat));
    let mut text = render_decimal(hundredths / 100);
    text.append(".");
    text.append(render_two_digits((hundredths % 100) as u8).as_str());
    text.append("km");
    assert(text@ =~= distance_text(distance as nat));
    text
}

/// Joins the parts of an activity's line.
pub fn compose_session_line(stamp: &String, sub_sport: &String, moving_time: u64) -> (line: String)
    ensures
        line@ == session_line(stamp@, sub_sport@, moving_time as nat),
{
    proof {
        reveal_strlit(" ");
    }
    let mut line = stamp.clone();
    line.append(" ");
    line.append(sub_sport.as_str());
    line.append(" ");
    line.append(moving_time_to_hour_minute_string(moving_time as u128).as_str());
    assert(line@ =~= session_line(stamp@, sub_sport@, moving_time as nat));
    line
}

/// Writes the line that the activity list shows for an activity; `None`
/// where its start lies beyond the calendar's range.
pub fn sessio_to_string(session: &Session) -> (result: Option<String>)
    ensures
        match result {
            Some(line) => utc_text_of(session@.start_time) is Some && line@ == session_line(
                utc_text_of(session@.start_time)->Some_0,
                session@.sub_sport,
                session@.total_moving_time as nat,
            ),
            None => utc_text_of(session@.start_time) is None,
        },
{
    match timestamp_as_string(session.start_time) {
        Some(stamp) => Some(
            compose_session_line(&stamp, &session.sub_sport, session.total_moving_time),
        ),
        None => None,
    }
}

/// How the horizontal coordinate of a sample is made.
#[derive(Clone, Copy, Debug, PartialEq, Eq, Structural)]
pub enum Axis {
    /// Sixty times the sample's place in the sequence: one sample a minute.
    Minutes,
    /// The sample's place in the sequence.
    Ordinal,
    /// The seconds between the first sample and this one.
    Elapsed,
}

impl Default for Axis {
    /// True elapsed time.
    fn default() -> (axis: Axis)
        ensures
            axis == Axis::Elapsed,
    {
        Axis::Elapsed
    }
}

/// Why no series could be built.
#[derive(Clone, Copy, Debug, PartialEq, Eq, Structural)]
pub enum SeriesError {
    /// There is no sample to chart.
    EmptySampleSequence,
}

/// One point of a series: horizontal coordinate, then value.
pub type Point = (i128, i64);

/// The series of one activity, ready to be charted: one point per sample for
/// power, heart rate and the threshold-power line, the bounds of the vertical
/// axis and the extent of the horizontal one.
#[derive(Clone, Debug, PartialEq, Eq)]
pub struct ChartDataset {
    pub power: Vec<Point>,
    pub heart_rate: Vec<Point>,
    pub min_y: i64,
    pub max_y: i64,
    pub max_x: i128,
    pub threshold_power: Vec<Point>,
}

impl ChartDataset {
    /// Puts a dataset together from its parts.
    pub fn new(
        power_data: Vec<Point>,
        heart_rate_data: Vec<Point>,
        min_y_value: i64,
        max_y_value: i64,
        max_x_value: i128,
        threshold_power_data: Vec<Point>,
    ) -> (dataset: ChartDataset)
        ensures
            dataset.power == power_data,
            dataset.heart_rate == heart_rate_data,
            dataset.min_y == min_y_value,
            dataset.max_y == max_y_value,
            dataset.max_x == max_x_value,
            dataset.threshold_power == threshold_power_data,
    {
        ChartDataset {
            power: power_data,
            heart_rate: heart_rate_data,
            min_y: min_y_value,
            max_y: max_y_value,
            max_x: max_x_value,
            threshold_power: threshold_power_data,
        }
    }
}

/// The horizontal coordinate of the sample at place `i`.
pub open spec fn x_at(records: Seq<Record>, axis: Axis, i: int) -> int {
    match axis {
        Axis::Minutes => 60 * i,
        Axis::Ordinal => i,
        Axis::Elapsed => records[i].timestamp - records[0].timestamp,
    }
}

/// The power series: each sample's power at its coordinate.
pub open spec fn power_points(records: Seq<Record>, axis: Axis) -> Seq<Point> {
    Seq::new(records.len(), |i: int| (x_at(records, axis, i) as i128, records[i].power))
}

/// The heart-rate series: each sample's heart rate at its coordinate.
pub open spec fn heart_rate_points(records: Seq<Record>, axis: Axis) -> Seq<Point> {
    Seq::new(records.len(), |i: int| (x_at(records, axis, i) as i128, records[i].heart_rate))
}

/// The threshold line: the same value at every sample's coordinate.
pub open spec fn threshold_points(records: Seq<Record>, axis: Axis, threshold: i64) -> Seq<Point> {
    Seq::new(records.len(), |i: int| (x_at(records, axis, i) as i128, threshold))
}

/// `value` is the smallest heart rate among the samples.
pub open spec fn least_heart_rate(records: Seq<Record>, value: i64) -> bool {
    &&& exists|i: int| 0 <= i < records.len() && (#[trigger] records[i]).heart_rate == value
    &&& forall|i: int| 0 <= i < records.len() ==> value <= (#[trigger] records[i]).heart_rate
}

/// `value` is the largest power among the samples.
pub open spec fn greatest_power(records: Seq<Record>, value: i64) -> bool {
    &&& exists|i: int| 0 <= i < records.len() && (#[trigger] records[i]).power == value
    &&& forall|i: int| 0 <= i < records.len() ==> (#[trigger] records[i]).power <= value
}

/// The dataset is the chart of the activity under the given axis: its three
/// series hold one point per sample, the vertical axis runs from the smallest
/// heart rate to the largest power, and the horizontal one ends at the last
/// sample's coordinate.
pub open spec fn charts(dataset: ChartDataset, session: SessionView, axis: Axis) -> bool {
    &&& session.records.len() > 0
    &&& dataset.power@ == power_points(session.records, axis)
    &&& dataset.heart_rate@ == heart_rate_points(session.records, axis)
    &&& dataset.threshold_power@ == threshold_points(
        session.records,
        axis,
        session.threshold_power,
    )
    &&& least_heart_rate(session.records, dataset.min_y)
    &&& greatest_power(session.records, dataset.max_y)
    &&& dataset.max_x == x_at(session.records, axis, session.records.len() - 1)
}

/// A chart holds one point per sample in each of its series, and its
/// vertical bounds enclose what they are the extremes of.
pub proof fn lemma_chart_has_one_point_per_sample(
    dataset: ChartDataset,
    session: SessionView,
    axis: Axis,
)
    requires
        charts(dataset, session, axis),
    ensures
        dataset.power@.len() == session.records.len(),
        dataset.heart_rate@.len() == session.records.len(),
        dataset.threshold_power@.len() == session.records.len(),
        forall|i: int|
            0 <= i < session.records.len() ==> dataset.min_y <= (
            #[trigger] session.records[i]).heart_rate,
        forall|i: int|
            0 <= i < session.records.len() ==> (#[trigger] session.records[i]).power
                <= dataset.max_y,
{
}

/// The vertical bounds of a chart are determined by the samples: two charts
/// of one activity agree in them.
pub proof fn lemma_chart_bounds_unique(records: Seq<Record>, a: i64, b: i64, c: i64, d: i64)
    requires
        least_heart_rate(records, a),
        least_heart_rate(records, b),
        greatest_power(records, c),
        greatest_power(records, d),
    ensures
        a == b,
        c == d,
{
}

/// Builds the chart series of an activity. An activity without samples has
/// no chart.
pub fn build_series(session: &Session, axis: Axis) -> (outcome: Result<ChartDataset, SeriesError>)
    ensures
        match outcome {
            Ok(dataset) => charts(dataset, session@, axis),
            Err(e) => session@.records.len() == 0 && e == SeriesError::EmptySampleSequence,
        },
{
    let count: usize = session.records.len();
    if count == 0 {
        return Err(SeriesError::EmptySampleSequence);
    }
    let first: i128 = session.records[0].timestamp as i128;
    let mut power_array: Vec<Point> = Vec::new();
    let mut heart_array: Vec<Point> = Vec::new();
    let mut threshold_power_data: Vec<Point> = Vec::new();
    let mut min_value_y: i64 = session.records[0].heart_rate;
    let mut max_value_y: i64 = session.records[0].power;
    let mut max_value_x: i128 = 0;
    let ghost records = session@.records;
    let mut idx: usize = 0;
    while idx < count
        invariant
            idx <= count,
            count == records.len(),
            count > 0,
            records == session@.records,
            first == records[0].timestamp,
            power_array@.len() == idx,
            heart_array@.len() == idx,
            threshold_power_data@.len() == idx,
            forall|i: int| 0 <= i < idx ==> power_array@[i] == power_points(records, axis)[i],
            forall|i: int| 0 <= i < idx ==> heart_array@[i] == heart_rate_points(records, axis)[i],
            forall|i: int|
                0 <= i < idx ==> threshold_power_data@[i] == threshold_points(
                    records,
                    axis,
                    session.threshold_power,
                )[i],
            exists|i: int| 0 <= i < count && (#[trigger] records[i]).heart_rate == min_value_y,
            forall|i: int| 0 <= i < idx ==> min_value_y <= (#[trigger] records[i]).heart_rate,
            exists|i: int| 0 <= i < count && (#[trigger] records[i]).power == max_value_y,
            forall|i: int| 0 <= i < idx ==> (#[trigger] records[i]).power <= max_value_y,
            idx > 0 ==> max_value_x == x_at(records, axis, idx - 1),
        decreases count - idx,
    {
        let item = session.records[idx];
        let x: i128 = match axis {
            Axis::Minutes => 60 * (idx as i128),
            Axis::Ordinal => idx as i128,
            Axis::Elapsed => item.timestamp as i128 - first,
        };
        assert(x == x_at(records, axis, idx as int));
        power_array.push((x, item.power));
        heart_array.push((x, item.heart_rate));
        threshold_power_data.push((x, session.threshold_power));
        if item.heart_rate < min_value_y {
            min_value_y = item.heart_rate;
        }
        if item.power > max_value_y {
            max_value_y = item.power;
        }
        max_value_x = x;
        idx = idx + 1;
    }
    assert(power_array@ =~= power_points(records, axis));
    assert(heart_array@ =~= heart_rate_points(records, axis));
    assert(threshold_power_data@ =~= threshold_points(records, axis, session.threshold_power));
    Ok(
        ChartDataset::new(
            power_array,
            heart_array,
            min_value_y,
            max_value_y,
            max_value_x,
            threshold_power_data,
        ),
    )
}

/// Builds the chart series of an activity, each sample at its place in the
/// sequence.
pub fn build_session_dataset(session: &Session) -> (outcome: Result<ChartDataset, SeriesError>)
    ensures
        match outcome {
            Ok(dataset) => charts(dataset, session@, Axis::Ordinal),
            Err(e) => session@.records.len() == 0 && e == SeriesError::EmptySampleSequence,
        },
{
    build_series(session, Axis::Ordinal)
}

/// Builds the chart series of the selected activity, one sample a minute.
/// Without a selected activity there is no sample to chart.
pub fn build_session_records_dataset(app: &App) -> (outcome: Result<ChartDataset, SeriesError>)
    ensures
        match outcome {
            Ok(dataset) => app@.selected_session is Some && charts(
                dataset,
                app@.selected_session->Some_0,
                Axis::Minutes,
            ),
            Err(e) => {
                &&& e == SeriesError::EmptySampleSequence
                &&& app@.selected_session matches Some(s) ==> s.records.len() == 0
            },
        },
{
    match &app.selected_session {
        Some(latest_session) => build_series(latest_session, Axis::Minutes),
        None => Err(SeriesError::EmptySampleSequence),
    }
}

} // verus!
