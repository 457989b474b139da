//! The journal as rows: what is written to the three tables `activity`,
//! `lap` and `sample`, and what is made of the rows that are read back.
//!
//! A row is the sequence of its column values, in the order in which the
//! table lists its columns:
//!
//! - `activity`: id, sport, sub_sport, avg_power, avg_heart_rate,
//!   total_distance, total_moving_time, total_elapsed_time, avg_cadence,
//!   serial_number, start_time, threshold_power;
//! - `lap`: id, avg_heart_rate, avg_power, start_time, distance,
//!   total_moving_time, activity_id;
//! - `sample`: id, heart_rate, power, timestamp, distance, activity_id.
//!
//! Times are whole seconds since the epoch. Distances and durations are
//! reals, held here exactly in thousandths.

use vstd::prelude::*;
use crate::db::{consistent, session_views, Store, StoreError};
use crate::parser::{Lap, Record, Session, SessionView};

verus! {

/// The value of one column of a row.
#[derive(Clone, Debug, PartialEq, Eq)]
pub enum Column {
    /// No value, or one of a kind that the journal does not write.
    Null,
    /// An integer.
    Integer(i64),
    /// A real that is not negative, in thousandths.
    Real(u64),
    /// Text.
    Text(String),
}

/// The rows of one table.
pub type Table = Vec<Vec<Column>>;

/// The contents of each row of a table.
pub open spec fn table_view(table: Seq<Vec<Column>>) -> Seq<Seq<Column>> {
    Seq::new(table.len(), |i: int| table[i]@)
}

/// The integer in column `at`, if the row has such a column and it holds an
/// integer.
pub open spec fn integer_at(row: Seq<Column>, at: int) -> Option<i64> {
    if 0 <= at < row.len() {
        match row[at] {
            Column::Integer(v) => Some(v),
            _ => None,
        }
    } else {
        None
    }
}

/// The thousandths in column `at`: of a real, or of an integer that is not
/// negative and whose thousandths fit.
pub open spec fn real_at(row: Seq<Column>, at: int) -> Option<u64> {
    if 0 <= at < row.len() {
        match row[at] {
            Column::Real(v) => Some(v),
            Column::Integer(v) => if 0 <= v && v * 1000 <= u64::MAX {
                Some((v * 1000) as u64)
            } else {
                None
            },
            _ => None,
        }
    } else {
        None
    }
}

/// The text in column `at`, if the row has such a column and it holds text.
pub open spec fn text_at(row: Seq<Column>, at: int) -> Option<Seq<char>> {
    if 0 <= at < row.len() {
        match row[at] {
            Column::Text(s) => Some(s@),
            _ => None,
        }
    } else {
        None
    }
}

/// An optional integer column: its value, or zero.
pub open spec fn integer_or_zero(row: Seq<Column>, at: int) -> i64 {
    match integer_at(row, at) {
        Some(v) => v,
        None => 0,
    }
}

/// An optional real column: its thousandths, or zero.
pub open spec fn real_or_zero(row: Seq<Column>, at: int) -> u64 {
    match real_at(row, at) {
        Some(v) => v,
        None => 0,
    }
}

/// An optional text column: its text, or the empty text.
pub open spec fn text_or_empty(row: Seq<Column>, at: int) -> Seq<char> {
    match text_at(row, at) {
        Some(s) => s,
        None => Seq::empty(),
    }
}

/// The activity that a row of `activity` holds, without laps and samples. A
/// row without a usable start time holds none; every other column has a
/// default.
pub open spec fn activity_of_row(row: Seq<Column>) -> Result<SessionView, StoreError> {
    match integer_at(row, 10) {
        None => Err(StoreError::ConstraintViolation),
        Some(start_time) => Ok(
            SessionView {
                id: integer_at(row, 0),
                sport: text_or_empty(row, 1),
                sub_sport: text_or_empty(row, 2),
                avg_power: integer_or_zero(row, 3),
                avg_heart_rate: integer_or_zero(row, 4),
                total_distance: real_or_zero(row, 5),
                total_moving_time: real_or_zero(row, 6),
                total_elapsed_time: real_or_zero(row, 7),
                avg_cadence: integer_or_zero(row, 8),
                serial_num: integer_or_zero(row, 9),
                start_time,
                threshold_power: integer_or_zero(row, 11),
                laps: Seq::empty(),
                records: Seq::empty(),
            },
        ),
    }
}

/// The lap that a row of `lap` holds, and the identity of the activity that
/// owns it. A row without a usable start time or owner holds none.
pub open spec fn lap_of_row(row: Seq<Column>) -> Result<(Lap, i64), StoreError> {
    match (integer_at(row, 3), integer_at(row, 6)) {
        (Some(start_time), Some(owner)) => Ok(
            (
                Lap {
                    id: integer_at(row, 0),
                    avg_heart_rate: integer_or_zero(row, 1),
                    avg_power: integer_or_zero(row, 2),
                    start_time,
                    total_distance: real_or_zero(row, 4),
                    total_moving_time: real_or_zero(row, 5),
                },
                owner,
            ),
        ),
        _ => Err(StoreError::ConstraintViolation),
    }
}

/// The sample that a row of `sample` holds, and the identity of the activity
/// that owns it. A row without a usable timestamp or owner holds none.
pub open spec fn sample_of_row(row: Seq<Column>) -> Result<(Record, i64), StoreError> {
    match (integer_at(row, 3), integer_at(row, 5)) {
        (Some(timestamp), Some(owner)) => Ok(
            (
                Record {
                    id: integer_at(row, 0),
                    heart_rate: integer_or_zero(row, 1),
                    power: integer_or_zero(row, 2),
                    timestamp,
                    distance: real_or_zero(row, 4),
                },
                owner,
            ),
        ),
        _ => Err(StoreError::ConstraintViolation),
    }
}

/// The column that holds an identity.
pub open spec fn identity_column(id: Option<i64>) -> Column {
    match id {
        Some(v) => Column::Integer(v),
        None => Column::Null,
    }
}

/// The row of `lap` for a lap of the activity `owner`.
pub open spec fn row_of_lap(lap: Lap, owner: i64) -> Seq<Column> {
    seq![
        identity_column(lap.id),
        Column::Integer(lap.avg_heart_rate),
        Column::Integer(lap.avg_power),
        Column::Integer(lap.start_time),
        Column::Real(lap.total_distance),
        Column::Real(lap.total_moving_time),
        Column::Integer(owner),
    ]
}

/// The row of `sample` for a sample of the activity `owner`.
pub open spec fn row_of_sample(record: Record, owner: i64) -> Seq<Column> {
    seq![
        identity_column(record.id),
        Column::Integer(record.heart_rate),
        Column::Integer(record.power),
        Column::Integer(record.timestamp),
        Column::Real(record.distance),
        Column::Integer(owner),
    ]
}

/// `row` is the row of `activity` for the given activity: column by column
/// it holds the activity's values.
pub open spec fn is_row_of_activity(row: Seq<Column>, session: SessionView) -> bool {
    &&& row.len() == 12
    &&& row[0] == identity_column(session.id)
    &&& text_at(row, 1) == Some(session.sport)
    &&& text_at(row, 2) == Some(session.sub_sport)
    &&& row[3] == Column::Integer(session.avg_power)
    &&& row[4] == Column::Integer(session.avg_heart_rate)
    &&& row[5] == Column::Real(session.total_distance)
    &&& row[6] == Column::Real(session.total_moving_time)
    &&& row[7] == Column::Real(session.total_elapsed_time)
    &&& row[8] == Column::Integer(session.avg_cadence)
    &&& row[9] == Column::Integer(session.serial_num)
    &&& row[10] == Column::Integer(session.start_time)
    &&& row[11] == Column::Integer(session.threshold_power)
}

fn column_integer(row: &Vec<Column>, at: usize) -> (value: Option<i64>)
    ensures
        value == integer_at(row@, at as int),
{
    if at < row.len() {
        match &row[at] {
            Column::Integer(v) => Some(*v),
            _ => None,
        }
    } else {
        None
    }
}

fn column_real(row: &Vec<Column>, at: usize) -> (value: Option<u64>)
    ensures
        value == real_at(row@, at as int),
{
    if at < row.len() {
        match &row[at] {
            Column::Real(v) => Some(*v),
            Column::Integer(v) => if *v < 0 {
                None
            } else {
                (*v as u64).checked_mul(1000)
            },
            _ => None,
        }
    } else {
        None
    }
}

fn integer_or_default(row: &Vec<Column>, at: usize) -> (value: i64)
    ensures
        value == integer_or_zero(row@, at as int),
{
    match column_integer(row, at) {
        Some(v) => v,
        None => 0,
    }
}

fn real_or_default(row: &Vec<Column>, at: usize) -> (value: u64)
    ensures
        value == real_or_zero(row@, at as int),
{
    match column_real(row, at) {
        Some(v) => v,
        None => 0,
    }
}

fn text_or_default(row: &Vec<Column>, at: usize) -> (value: String)
    ensures
        value@ == text_or_empty(row@, at as int),
{
    if at < row.len() {
        match &row[at] {
            Column::Text(s) => s.clone(),
            _ => String::new(),
        }
    } else {
        String::new()
    }
}

fn identity(id: Option<i64>) -> (column: Column)
    ensures
        column == identity_column(id),
{
    match id {
        Some(v) => Column::Integer(v),
        None => Column::Null,
    }
}

/// Reads an activity off a row of `activity`. Its laps and samples are in
/// rows of their own.
pub fn session_from_row(row: &Vec<Column>) -> (session: Result<Session, StoreError>)
    ensures
        match session {
            Ok(s) => activity_of_row(row@) == Ok::<SessionView, StoreError>(s@),
            Err(e) => activity_of_row(row@) == Err::<SessionView, StoreError>(e),
        },
{
    let start_time: i64 = match column_integer(row, 10) {
        Some(v) => v,
        None => {
            return Err(StoreError::ConstraintViolation);
        },
    };
    Ok(
        Session {
            id: column_integer(row, 0),
            sport: text_or_default(row, 1),
            sub_sport: text_or_default(row, 2),
            avg_power: integer_or_default(row, 3),
            avg_heart_rate: integer_or_default(row, 4),
            total_distance: real_or_default(row, 5),
            total_moving_time: real_or_default(row, 6),
            total_elapsed_time: real_or_default(row, 7),
            avg_cadence: integer_or_default(row, 8),
            serial_num: integer_or_default(row, 9),
            start_time,
            threshold_power: integer_or_default(row, 11),
            laps: Vec::new(),
            records: Vec::new(),
        },
    )
}

/// Reads a lap and the identity of its activity off a row of `lap`.
pub fn lap_from_row(row: &Vec<Column>) -> (lap: Result<(Lap, i64), StoreError>)
    ensures
        lap == lap_of_row(row@),
{
    let start_time: i64 = match column_integer(row, 3) {
        Some(v) => v,
        None => {
            return Err(StoreError::ConstraintViolation);
        },
    };
    let owner: i64 = match column_integer(row, 6) {
        Some(v) => v,
        None => {
            return Err(StoreError::ConstraintViolation);
        },
    };
    Ok(
        (
            Lap {
                id: column_integer(row, 0),
                avg_heart_rate: integer_or_default(row, 1),
                avg_power: integer_or_default(row, 2),
                start_time,
                total_distance: real_or_default(row, 4),
                total_moving_time: real_or_default(row, 5),
            },
            owner,
        ),
    )
}

/// Reads a sample and the identity of its activity off a row of `sample`.
pub fn record_from_row(row: &Vec<Column>) -> (record: Result<(Record, i64), StoreError>)
    ensures
        record == sample_of_row(row@),
{
    let timestamp: i64 = match column_integer(row, 3) {
        Some(v) => v,
        None => {
            return Err(StoreError::ConstraintViolation);
        },
    };
    let owner: i64 = match column_integer(row, 5) {
        Some(v) => v,
        None => {
            return Err(StoreError::ConstraintViolation);
        },
    };
    Ok(
        (
            Record {
                id: column_integer(row, 0),
                heart_rate: integer_or_default(row, 1),
                power: integer_or_default(row, 2),
                timestamp,
                distance: real_or_default(row, 4),
            },
            owner,
        ),
    )
}

/// The row of `activity` for an activity.
pub fn session_row(session: &Session) -> (row: Vec<Column>)
    ensures
        is_row_of_activity(row@, session@),
{
    let mut row: Vec<Column> = Vec::new();
    row.push(identity(session.id));
    row.push(Column::Text(session.sport.clone()));
    row.push(Column::Text(session.sub_sport.clone()));
    row.push(Column::Integer(session.avg_power));
    row.push(Column::Integer(session.avg_heart_rate));
    row.push(Column::Real(session.total_distance));
    row.push(Column::Real(session.total_moving_time));
    row.push(Column::Real(session.total_elapsed_time));
    row.push(Column::Integer(session.avg_cadence));
    row.push(Column::Integer(session.serial_num));
    row.push(Column::Integer(session.start_time));
    row.push(Column::Integer(session.threshold_power));
    row
}

/// The row of `lap` for a lap of the activity `owner`.
pub fn lap_row(lap: &Lap, owner: i64) -> (row: Vec<Column>)
    ensures
        row@ == row_of_lap(*lap, owner),
{
    let mut row: Vec<Column> = Vec::new();
    row.push(identity(lap.id));
    row.push(Column::Integer(lap.avg_heart_rate));
    row.push(Column::Integer(lap.avg_power));
    row.push(Column::Integer(lap.start_time));
    row.push(Column::Real(lap.total_distance));
    row.push(Column::Real(lap.total_moving_time));
    row.push(Column::Integer(owner));
    assert(row@ =~= row_of_lap(*lap, owner));
    row
}

/// The row of `sample` for a sample of the activity `owner`.
pub fn record_row(record: &Record, owner: i64) -> (row: Vec<Column>)
    ensures
        row@ == row_of_sample(*record, owner),
{
    let mut row: Vec<Column> = Vec::new();
    row.push(identity(record.id));
    row.push(Column::Integer(record.heart_rate));
    row.push(Column::Integer(record.power));
    row.push(Column::Integer(record.timestamp));
    row.push(Column::Real(record.distance));
    row.push(Column::Integer(owner));
    assert(row@ =~= row_of_sample(*record, owner));
    row
}

/// What is written for an activity is read back as it was, but for its laps
/// and samples, which have rows of their own.
pub proof fn lemma_activity_row_round_trip(row: Seq<Column>, session: SessionView)
    requires
        is_row_of_activity(row, session),
    ensures
        activity_of_row(row) == Ok::<SessionView, StoreError>(
            SessionView { laps: Seq::empty(), records: Seq::empty(), ..session },
        ),
{
}

/// What is written for a lap is read back as it was, with its owner.
pub proof fn lemma_lap_row_round_trip(lap: Lap, owner: i64)
    ensures
        lap_of_row(row_of_lap(lap, owner)) == Ok::<(Lap, i64), StoreError>((lap, owner)),
{
}

/// What is written for a sample is read back as it was, with its owner.
pub proof fn lemma_sample_row_round_trip(record: Record, owner: i64)
    ensures
        sample_of_row(row_of_sample(record, owner)) == Ok::<(Record, i64), StoreError>(
            (record, owner),
        ),
{
}

/// The rows of one activity: its row of `activity` and its rows of `lap` and
/// `sample`, each in the order of their identities.
#[derive(Clone, Debug, PartialEq, Eq)]
pub struct SessionRows {
    pub activity: Vec<Column>,
    pub laps: Table,
    pub samples: Table,
}

/// The rows of `lap` for the laps of the activity `owner`.
pub open spec fn rows_of_laps(laps: Seq<Lap>, owner: i64) -> Seq<Seq<Column>> {
    Seq::new(laps.len(), |j: int| row_of_lap(laps[j], owner))
}

/// The rows of `sample` for the samples of the activity `owner`.
pub open spec fn rows_of_samples(records: Seq<Record>, owner: i64) -> Seq<Seq<Column>> {
    Seq::new(records.len(), |j: int| row_of_sample(records[j], owner))
}

/// `rows` are the rows of the given activity, which has an identity.
pub open spec fn are_rows_of(rows: SessionRows, session: SessionView) -> bool {
    &&& session.id is Some
    &&& is_row_of_activity(rows.activity@, session)
    &&& table_view(rows.laps@) == rows_of_laps(session.laps, session.id->Some_0)
    &&& table_view(rows.samples@) == rows_of_samples(session.records, session.id->Some_0)
}

/// Every row holds a lap of the activity `owner`.
pub open spec fn laps_belong(rows: Seq<Seq<Column>>, owner: i64) -> bool {
    forall|j: int|
        0 <= j < rows.len() ==> lap_of_row(#[trigger] rows[j]) is Ok && lap_of_row(
            rows[j],
        )->Ok_0.1 == owner
}

/// Every row holds a sample of the activity `owner`.
pub open spec fn samples_belong(rows: Seq<Seq<Column>>, owner: i64) -> bool {
    forall|j: int|
        0 <= j < rows.len() ==> sample_of_row(#[trigger] rows[j]) is Ok && sample_of_row(
            rows[j],
        )->Ok_0.1 == owner
}

/// The laps that the rows hold, in the order of the rows.
pub open spec fn laps_of_rows(rows: Seq<Seq<Column>>) -> Seq<Lap> {
    Seq::new(rows.len(), |j: int| lap_of_row(rows[j])->Ok_0.0)
}

/// The samples that the rows hold, in the order of the rows.
pub open spec fn samples_of_rows(rows: Seq<Seq<Column>>) -> Seq<Record> {
    Seq::new(rows.len(), |j: int| sample_of_row(rows[j])->Ok_0.0)
}

/// The activity that its rows hold. The row of `activity` must hold an
/// activity with an identity, and every row of `lap` and `sample` a lap or
/// sample of that activity; otherwise the rows break the rules.
pub open spec fn session_of_rows(
    activity: Seq<Column>,
    laps: Seq<Seq<Column>>,
    samples: Seq<Seq<Column>>,
) -> Result<SessionView, StoreError> {
    match activity_of_row(activity) {
        Err(e) => Err(e),
        Ok(session) => match session.id {
            None => Err(StoreError::ConstraintViolation),
            Some(id) => if laps_belong(laps, id) && samples_belong(samples, id) {
                Ok(
                    SessionView {
                        laps: laps_of_rows(laps),
                        records: samples_of_rows(samples),
                        ..session
                    },
                )
            } else {
                Err(StoreError::ConstraintViolation)
            },
        },
    }
}

/// Reads the laps of the activity `owner` off their rows.
fn laps_from_rows(rows: &Table, owner: i64) -> (laps: Option<Vec<Lap>>)
    ensures
        match laps {
            Some(found) => laps_belong(table_view(rows@), owner) && found@ == laps_of_rows(
                table_view(rows@),
            ),
            None => !laps_belong(table_view(rows@), owner),
        },
{
    let ghost table = table_view(rows@);
    let mut laps: Vec<Lap> = Vec::new();
    let mut j: usize = 0;
    while j < rows.len()
        invariant
            j <= rows.len(),
            table == table_view(rows@),
            laps@.len() == j,
            forall|k: int|
                0 <= k < j ==> lap_of_row(#[trigger] table[k]) is Ok && lap_of_row(
                    table[k],
                )->Ok_0.1 == owner,
            forall|k: int| 0 <= k < j ==> laps@[k] == laps_of_rows(table)[k],
        decreases rows.len() - j,
    {
        assert(table[j as int] == rows@[j as int]@);
        match lap_from_row(&rows[j]) {
            Ok((lap, of)) => {
                if of != owner {
                    return None;
                }
                laps.push(lap);
            },
            Err(_) => {
                return None;
            },
        }
        j = j + 1;
    }
    assert(laps@ =~= laps_of_rows(table));
    Some(laps)
}

/// Reads the samples of the activity `owner` off their rows.
fn records_from_rows(rows: &Table, owner: i64) -> (records: Option<Vec<Record>>)
    ensures
        match records {
            Some(found) => samples_belong(table_view(rows@), owner) && found@ == samples_of_rows(
                table_view(rows@),
            ),
            None => !samples_belong(table_view(rows@), owner),
        },
{
    let ghost table = table_view(rows@);
    let mut records: Vec<Record> = Vec::new();
    let mut j: usize = 0;
    while j < rows.len()
        invariant
            j <= rows.len(),
            table == table_view(rows@),
            records@.len() == j,
            forall|k: int|
                0 <= k < j ==> sample_of_row(#[trigger] table[k]) is Ok && sample_of_row(
                    table[k],
                )->Ok_0.1 == owner,
            forall|k: int| 0 <= k < j ==> records@[k] == samples_of_rows(table)[k],
        decreases rows.len() - j,
    {
        assert(table[j as int] == rows@[j as int]@);
        match record_from_row(&rows[j]) {
            Ok((record, of)) => {
                if of != owner {
                    return None;
                }
                records.push(record);
            },
            Err(_) => {
                return None;
            },
        }
        j = j + 1;
    }
    assert(records@ =~= samples_of_rows(table));
    Some(records)
}

/// Reads an activity with its laps and samples off its rows.
pub fn session_from_rows(rows: &SessionRows) -> (session: Result<Session, StoreError>)
    ensures
        match session {
            Ok(s) => session_of_rows(
                rows.activity@,
                table_view(rows.laps@),
                table_view(rows.samples@),
            ) == Ok::<SessionView, StoreError>(s@),
            Err(e) => session_of_rows(
                rows.activity@,
                table_view(rows.laps@),
                table_view(rows.samples@),
            ) == Err::<SessionView, StoreError>(e),
        },
{
    let mut session = match session_from_row(&rows.activity) {
        Ok(s) => s,
        Err(e) => {
            return Err(e);
        },
    };
    let id: i64 = match session.id {
        Some(id) => id,
        None => {
            return Err(StoreError::ConstraintViolation);
        },
    };
    let laps = match laps_from_rows(&rows.laps, id) {
        Some(found) => found,
        None => {
            return Err(StoreError::ConstraintViolation);
        },
    };
    let records = match records_from_rows(&rows.samples, id) {
        Some(found) => found,
        None => {
            return Err(StoreError::ConstraintViolation);
        },
    };
    session.laps = laps;
    session.records = records;
    Ok(session)
}

/// The rows to write for an activity that has its identity; none for one
/// that has not.
pub fn session_rows(session: &Session) -> (rows: Option<SessionRows>)
    ensures
        match rows {
            Some(r) => are_rows_of(r, session@),
            None => session@.id is None,
        },
{
    let id: i64 = match session.id {
        Some(id) => id,
        None => {
            return None;
        },
    };
    let mut laps: Table = Vec::new();
    let mut j: usize = 0;
    while j < session.laps.len()
        invariant
            j <= session.laps.len(),
            laps@.len() == j,
            forall|k: int|
                0 <= k < j ==> (#[trigger] laps@[k])@ == rows_of_laps(session@.laps, id)[k],
        decreases session.laps.len() - j,
    {
        laps.push(lap_row(&session.laps[j], id));
        j = j + 1;
    }
    let mut samples: Table = Vec::new();
    let mut j: usize = 0;
    while j < session.records.len()
        invariant
            j <= session.records.len(),
            samples@.len() == j,
            forall|k: int|
                0 <= k < j ==> (#[trigger] samples@[k])@ == rows_of_samples(
                    session@.records,
                    id,
                )[k],
        decreases session.records.len() - j,
    {
        samples.push(record_row(&session.records[j], id));
        j = j + 1;
    }
    assert(table_view(laps@) =~= rows_of_laps(session@.laps, id));
    assert(table_view(samples@) =~= rows_of_samples(session@.records, id));
    Some(SessionRows { activity: session_row(session), laps, samples })
}

/// The activities that the rows of a journal hold, each read off its own
/// rows.
pub open spec fn sessions_of_rows(journal: Seq<SessionRows>) -> Result<
    Seq<SessionView>,
    StoreError,
> {
    if forall|i: int|
        0 <= i < journal.len() ==> session_of_rows(
            (#[trigger] journal[i]).activity@,
            table_view(journal[i].laps@),
            table_view(journal[i].samples@),
        ) is Ok {
        Ok(
            Seq::new(
                journal.len(),
                |i: int|
                    session_of_rows(
                        journal[i].activity@,
                        table_view(journal[i].laps@),
                        table_view(journal[i].samples@),
                    )->Ok_0,
            ),
        )
    } else {
        Err(StoreError::ConstraintViolation)
    }
}

/// Takes up a journal from its rows, the activities in the order of their
/// identities. The rows make a store exactly when each activity can be read
/// off its rows and the activities keep the rules of a store; otherwise they
/// are refused as a whole.
pub fn restore_from_rows(journal: &Vec<SessionRows>) -> (outcome: Result<Store, StoreError>)
    ensures
        match outcome {
            Ok(store) => {
                &&& sessions_of_rows(journal@) is Ok
                &&& consistent(sessions_of_rows(journal@)->Ok_0)
                &&& store.wf()
                &&& store@ == sessions_of_rows(journal@)->Ok_0
            },
            Err(e) => {
                &&& e == StoreError::ConstraintViolation
                &&& sessions_of_rows(journal@) is Ok ==> !consistent(
                    sessions_of_rows(journal@)->Ok_0,
                )
            },
        },
{
    let mut sessions: Vec<Session> = Vec::new();
    let mut i: usize = 0;
    while i < journal.len()
        invariant
            i <= journal.len(),
            sessions@.len() == i,
            forall|k: int|
                0 <= k < i ==> session_of_rows(
                    (#[trigger] journal@[k]).activity@,
                    table_view(journal@[k].laps@),
                    table_view(journal@[k].samples@),
                ) == Ok::<SessionView, StoreError>(sessions@[k]@),
        decreases journal.len() - i,
    {
        match session_from_rows(&journal[i]) {
            Ok(session) => {
                sessions.push(session);
            },
            Err(_) => {
                return Err(StoreError::ConstraintViolation);
            },
        }
        i = i + 1;
    }
    assert(session_views(sessions@) =~= sessions_of_rows(journal@)->Ok_0);
    Store::restore(sessions)
}

/// An activity that was written with its laps and samples is read back as it
/// was: the same values, the same number of laps and samples, in the same
/// order.
pub proof fn lemma_session_rows_round_trip(rows: SessionRows, session: SessionView)
    requires
        are_rows_of(rows, session),
    ensures
        session_of_rows(rows.activity@, table_view(rows.laps@), table_view(rows.samples@)) == Ok::<
            SessionView,
            StoreError,
        >(session),
{
    let id = session.id->Some_0;
    let laps = table_view(rows.laps@);
    let samples = table_view(rows.samples@);
    lemma_activity_row_round_trip(rows.activity@, session);
    assert forall|j: int| 0 <= j < laps.len() implies lap_of_row(#[trigger] laps[j]) == Ok::<
        (Lap, i64),
        StoreError,
    >((session.laps[j], id)) by {
        lemma_lap_row_round_trip(session.laps[j], id);
    }
    assert forall|j: int| 0 <= j < samples.len() implies sample_of_row(
        #[trigger] samples[j],
    ) == Ok::<(Record, i64), StoreError>((session.records[j], id)) by {
        lemma_sample_row_round_trip(session.records[j], id);
    }
    assert(laps_of_rows(laps) =~= session.laps);
    assert(samples_of_rows(samples) =~= session.records);
}

/// A journal that was written from the activities of a store is read back
/// as those activities, in their order.
pub proof fn lemma_journal_round_trip(journal: Seq<SessionRows>, stored: Seq<SessionView>)
    requires
        journal.len() == stored.len(),
        forall|i: int| 0 <= i < journal.len() ==> are_rows_of(#[trigger] journal[i], stored[i]),
    ensures
        sessions_of_rows(journal) == Ok::<Seq<SessionView>, StoreError>(stored),
{
    assert forall|i: int| 0 <= i < journal.len() implies session_of_rows(
        (#[trigger] journal[i]).activity@,
        table_view(journal[i].laps@),
        table_view(journal[i].samples@),
    ) == Ok::<SessionView, StoreError>(stored[i]) by {
        lemma_session_rows_round_trip(journal[i], stored[i]);
    }
    assert(sessions_of_rows(journal)->Ok_0 =~= stored);
}

} // verus!
