use ridelog::db::{create, get_session_by_id, insert_session, StoreError};
use ridelog::parser::{Lap, Record, Session};
use ridelog::rows::{
    lap_from_row, lap_row, record_from_row, record_row, restore_from_rows, session_from_row,
    session_from_rows, session_row, session_rows, Column, SessionRows,
};

fn text(value: &str) -> Column {
    Column::Text(value.to_string())
}

fn activity(start: i64) -> Session {
    Session {
        id: None,
        start_time: start,
        total_elapsed_time: 3_600_500,
        total_distance: 30_250_000,
        avg_power: 210,
        total_moving_time: 3_500_000,
        avg_heart_rate: 150,
        threshold_power: 250,
        sport: "cycling".to_string(),
        sub_sport: "road_cycling".to_string(),
        avg_cadence: 88,
        laps: vec![
            Lap {
                id: None,
                start_time: start,
                avg_power: 190,
                avg_heart_rate: 140,
                total_moving_time: 600_000,
                total_distance: 5_000_000,
            },
            Lap {
                id: None,
                start_time: start + 600,
                avg_power: 230,
                avg_heart_rate: 160,
                total_moving_time: 2_900_000,
                total_distance: 25_250_000,
            },
        ],
        records: vec![
            Record { id: None, timestamp: start, heart_rate: 120, power: 180, distance: 0 },
            Record { id: None, timestamp: start + 1, heart_rate: 121, power: 200, distance: 8_400 },
            Record { id: None, timestamp: start + 2, heart_rate: 122, power: 220, distance: 16_900 },
        ],
        serial_num: 3_912_345,
    }
}

fn stored() -> Vec<Session> {
    let mut store = create();
    insert_session(&mut store, activity(1000)).unwrap();
    insert_session(&mut store, activity(9000)).unwrap();
    vec![get_session_by_id(&store, 1).unwrap(), get_session_by_id(&store, 2).unwrap()]
}

fn activity_row() -> Vec<Column> {
    vec![
        Column::Integer(1),
        text("cycling"),
        text("road_cycling"),
        Column::Integer(210),
        Column::Integer(150),
        Column::Real(30_250_000),
        Column::Real(3_500_000),
        Column::Real(3_600_500),
        Column::Integer(88),
        Column::Integer(3_912_345),
        Column::Integer(1000),
        Column::Integer(250),
    ]
}

#[test]
fn activity_is_written_column_by_column() {
    assert_eq!(session_row(&stored()[0]), activity_row());
    let mut fresh = activity_row();
    fresh[0] = Column::Null;
    assert_eq!(session_row(&activity(1000)), fresh);
}

#[test]
fn lap_is_written_column_by_column() {
    assert_eq!(
        lap_row(&stored()[1].laps[1], 2),
        vec![
            Column::Integer(4),
            Column::Integer(160),
            Column::Integer(230),
            Column::Integer(9600),
            Column::Real(25_250_000),
            Column::Real(2_900_000),
            Column::Integer(2),
        ]
    );
}

#[test]
fn sample_is_written_column_by_column() {
    assert_eq!(
        record_row(&stored()[0].records[2], 1),
        vec![
            Column::Integer(3),
            Column::Integer(122),
            Column::Integer(220),
            Column::Integer(1002),
            Column::Real(16_900),
            Column::Integer(1),
        ]
    );
}

#[test]
fn activity_is_read_back() {
    let mut expected = stored().remove(0);
    expected.laps.clear();
    expected.records.clear();
    assert_eq!(session_from_row(&activity_row()), Ok(expected));
}

#[test]
fn missing_columns_read_as_defaults() {
    let mut row = vec![Column::Null; 12];
    row[10] = Column::Integer(77);
    let session = session_from_row(&row).unwrap();
    assert_eq!(session.id, None);
    assert_eq!(session.start_time, 77);
    assert_eq!(session.sport, "");
    assert_eq!(session.sub_sport, "");
    assert_eq!(session.avg_power, 0);
    assert_eq!(session.avg_heart_rate, 0);
    assert_eq!(session.total_distance, 0);
    assert_eq!(session.total_moving_time, 0);
    assert_eq!(session.total_elapsed_time, 0);
    assert_eq!(session.avg_cadence, 0);
    assert_eq!(session.serial_num, 0);
    assert_eq!(session.threshold_power, 0);
}

#[test]
fn columns_of_the_wrong_kind_read_as_defaults() {
    let mut row = activity_row();
    row[1] = Column::Integer(3);
    row[3] = text("strong");
    row[4] = Column::Real(150_000);
    row[5] = text("far");
    row[6] = Column::Integer(3_500);
    row[7] = Column::Integer(-1);
    let session = session_from_row(&row).unwrap();
    assert_eq!(session.sport, "");
    assert_eq!(session.avg_power, 0);
    assert_eq!(session.avg_heart_rate, 0);
    assert_eq!(session.total_distance, 0);
    assert_eq!(session.total_moving_time, 3_500_000);
    assert_eq!(session.total_elapsed_time, 0);
    assert_eq!(session.sub_sport, "road_cycling");
}

#[test]
fn row_without_start_time_holds_no_activity() {
    let mut row = activity_row();
    row[10] = Column::Null;
    assert_eq!(session_from_row(&row), Err(StoreError::ConstraintViolation));
    row[10] = text("1000");
    assert_eq!(session_from_row(&row), Err(StoreError::ConstraintViolation));
    row[10] = Column::Real(1_000_000);
    assert_eq!(session_from_row(&row), Err(StoreError::ConstraintViolation));
    assert_eq!(session_from_row(&Vec::new()), Err(StoreError::ConstraintViolation));
    row.truncate(10);
    assert_eq!(session_from_row(&row), Err(StoreError::ConstraintViolation));
}

#[test]
fn lap_and_sample_are_read_back() {
    let kept = stored().remove(1);
    assert_eq!(lap_from_row(&lap_row(&kept.laps[0], 2)), Ok((kept.laps[0], 2)));
    assert_eq!(record_from_row(&record_row(&kept.records[1], 2)), Ok((kept.records[1], 2)));
}

#[test]
fn rows_without_time_or_owner_hold_nothing() {
    let kept = stored().remove(0);
    let mut row = lap_row(&kept.laps[0], 1);
    row[3] = Column::Null;
    assert_eq!(lap_from_row(&row), Err(StoreError::ConstraintViolation));
    let mut row = lap_row(&kept.laps[0], 1);
    row[6] = Column::Null;
    assert_eq!(lap_from_row(&row), Err(StoreError::ConstraintViolation));
    let mut row = record_row(&kept.records[0], 1);
    row[3] = text("now");
    assert_eq!(record_from_row(&row), Err(StoreError::ConstraintViolation));
    let mut row = record_row(&kept.records[0], 1);
    row.pop();
    assert_eq!(record_from_row(&row), Err(StoreError::ConstraintViolation));
    let mut row = record_row(&kept.records[0], 1);
    row[1] = Column::Null;
    row[4] = Column::Null;
    let expected = Record { heart_rate: 0, distance: 0, ..kept.records[0] };
    assert_eq!(record_from_row(&row), Ok((expected, 1)));
}

#[test]
fn fresh_activity_has_no_rows() {
    assert_eq!(session_rows(&activity(1000)), None);
}

#[test]
fn stored_activity_round_trips_through_its_rows() {
    for kept in stored() {
        let rows = session_rows(&kept).unwrap();
        assert_eq!(rows.laps.len(), 2);
        assert_eq!(rows.samples.len(), 3);
        assert_eq!(session_from_rows(&rows), Ok(kept));
    }
}

#[test]
fn rows_of_another_activity_break_the_rules() {
    let kept = stored();
    let mut rows = session_rows(&kept[0]).unwrap();
    rows.laps.push(lap_row(&kept[1].laps[0], 2));
    assert_eq!(session_from_rows(&rows), Err(StoreError::ConstraintViolation));
    let mut rows = session_rows(&kept[0]).unwrap();
    rows.samples[1][5] = Column::Integer(2);
    assert_eq!(session_from_rows(&rows), Err(StoreError::ConstraintViolation));
    let mut rows = session_rows(&kept[0]).unwrap();
    rows.activity[0] = Column::Null;
    assert_eq!(session_from_rows(&rows), Err(StoreError::ConstraintViolation));
}

fn journal() -> Vec<SessionRows> {
    stored().iter().map(|kept| session_rows(kept).unwrap()).collect()
}

#[test]
fn journal_round_trips() {
    let store = restore_from_rows(&journal()).unwrap();
    assert_eq!(store.len(), 2);
    assert_eq!(get_session_by_id(&store, 1), Some(stored().remove(0)));
    assert_eq!(get_session_by_id(&store, 2), Some(stored().remove(1)));
    assert_eq!(restore_from_rows(&Vec::new()).unwrap().len(), 0);
}

#[test]
fn restored_journal_takes_further_activities() {
    let mut store = restore_from_rows(&journal()).unwrap();
    assert_eq!(insert_session(&mut store, activity(20_000)), Ok(3));
    assert_eq!(insert_session(&mut store, activity(1500)), Err(StoreError::DuplicateActivity));
    assert_eq!(get_session_by_id(&store, 3).unwrap().laps[0].id, Some(5));
}

#[test]
fn broken_journal_is_refused() {
    let mut rows = journal();
    rows.swap(0, 1);
    assert_eq!(restore_from_rows(&rows).err(), Some(StoreError::ConstraintViolation));
    let mut rows = journal();
    rows[1].activity[10] = Column::Integer(1000);
    assert_eq!(restore_from_rows(&rows).err(), Some(StoreError::ConstraintViolation));
    let mut rows = journal();
    rows[1].activity[10] = Column::Null;
    assert_eq!(restore_from_rows(&rows).err(), Some(StoreError::ConstraintViolation));
    let mut rows = journal();
    rows[0].laps.remove(0);
    assert_eq!(restore_from_rows(&rows).err(), Some(StoreError::ConstraintViolation));
    let mut rows = journal();
    rows[1].samples[0][0] = Column::Integer(1);
    assert_eq!(restore_from_rows(&rows).err(), Some(StoreError::ConstraintViolation));
}
