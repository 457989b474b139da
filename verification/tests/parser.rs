use ridelog::parser::{
    assemble, find_field, find_message, get_decimal_value, get_file_serial_num, get_laps_data, get_number_value,
    get_record_data, get_session_data, init, is_fit_file, thin, Field, FieldName, FieldValue, Lap,
    Malformed, Message, MessageKind, ParseError, Record, Sampling, Session,
};

fn field(name: &str, value: FieldValue) -> Field {
    Field { name: name.to_string(), value }
}

fn text(value: &str) -> FieldValue {
    FieldValue::Text(value.to_string())
}

fn session_fields() -> Vec<Field> {
    vec![
        field("sport", text("cycling")),
        field("vendor_extra", FieldValue::Unsigned(9)),
        field("sub_sport", text("indoor_cycling")),
        field("start_time", FieldValue::Timestamp(1000)),
        field("total_elapsed_time", FieldValue::Decimal(3_600_500)),
        field("total_moving_time", FieldValue::Decimal(3_500_000)),
        field("total_distance", FieldValue::Decimal(30_250_000)),
        field("avg_power", FieldValue::Unsigned(210)),
        field("avg_heart_rate", FieldValue::Unsigned(150)),
        field("avg_cadence", FieldValue::Unsigned(88)),
        field("threshold_power", FieldValue::Unsigned(250)),
    ]
}

fn record_fields(timestamp: i64, power: u64, heart_rate: u64) -> Vec<Field> {
    vec![
        field("timestamp", FieldValue::Timestamp(timestamp)),
        field("power", FieldValue::Unsigned(power)),
        field("heart_rate", FieldValue::Unsigned(heart_rate)),
        field("distance", FieldValue::Decimal(12_500)),
    ]
}

fn lap_fields(start: i64) -> Vec<Field> {
    vec![
        field("start_time", FieldValue::Timestamp(start)),
        field("avg_power", FieldValue::Unsigned(200)),
        field("avg_heart_rate", FieldValue::Unsigned(140)),
        field("total_moving_time", FieldValue::Decimal(600_000)),
        field("total_distance", FieldValue::Decimal(5_000_000)),
    ]
}

fn message(kind: MessageKind, fields: Vec<Field>) -> Message {
    Message { kind, fields }
}

fn whole_file() -> Vec<Message> {
    vec![
        message(MessageKind::FileId, vec![field("serial_number", FieldValue::Unsigned(3_912_345))]),
        message(MessageKind::Record, record_fields(1000, 180, 120)),
        message(MessageKind::Other, vec![field("timestamp", FieldValue::Timestamp(1))]),
        message(MessageKind::Lap, lap_fields(1000)),
        message(MessageKind::Record, record_fields(1001, 220, 125)),
        message(MessageKind::Lap, lap_fields(1600)),
        message(MessageKind::Session, session_fields()),
        message(MessageKind::Record, record_fields(1002, 240, 130)),
    ]
}

#[test]
fn fit_extension_is_recognised() {
    assert!(is_fit_file(&"ride.fit".to_string()));
    assert!(is_fit_file(&".fit".to_string()));
    assert!(is_fit_file(&"/some/dir/morning ride.fit".to_string()));
}

#[test]
fn other_extensions_are_refused() {
    assert!(!is_fit_file(&"ride.gpx".to_string()));
    assert!(!is_fit_file(&"fit".to_string()));
    assert!(!is_fit_file(&"".to_string()));
    assert!(!is_fit_file(&"ride.FIT".to_string()));
    assert!(!is_fit_file(&"ride.fit.bak".to_string()));
}

#[test]
fn field_names_are_the_decoders() {
    assert_eq!(FieldName::StartTime.as_str(), "start_time");
    assert_eq!(FieldName::AvgPower.as_str(), "avg_power");
    assert_eq!(FieldName::TotalMovingTime.as_str(), "total_moving_time");
    assert_eq!(FieldName::TotalElapsedTime.as_str(), "total_elapsed_time");
    assert_eq!(FieldName::AvgCadence.as_str(), "avg_cadence");
    assert_eq!(FieldName::TotalDistance.as_str(), "total_distance");
    assert_eq!(FieldName::Sport.as_str(), "sport");
    assert_eq!(FieldName::SubSport.as_str(), "sub_sport");
    assert_eq!(FieldName::ThresholdPower.as_str(), "threshold_power");
    assert_eq!(FieldName::AvgHeartRate.as_str(), "avg_heart_rate");
    assert_eq!(FieldName::SerialNumber.as_str(), "serial_number");
    assert_eq!(FieldName::Power.as_str(), "power");
    assert_eq!(FieldName::Timestamp.as_str(), "timestamp");
    assert_eq!(FieldName::Distance.as_str(), "distance");
    assert_eq!(FieldName::HeartRate.as_str(), "heart_rate");
}

#[test]
fn integers_convert_when_they_fit() {
    assert_eq!(FieldValue::Timestamp(-5).as_integer(), Some(-5));
    assert_eq!(FieldValue::Signed(i64::MIN).as_integer(), Some(i64::MIN));
    assert_eq!(FieldValue::Unsigned(7).as_integer(), Some(7));
    assert_eq!(FieldValue::Unsigned(i64::MAX as u64).as_integer(), Some(i64::MAX));
}

#[test]
fn integer_conversion_fails_closed() {
    assert_eq!(FieldValue::Unsigned(i64::MAX as u64 + 1).as_integer(), None);
    assert_eq!(FieldValue::Unsigned(u64::MAX).as_integer(), None);
    assert_eq!(FieldValue::Decimal(1_000).as_integer(), None);
    assert_eq!(text("12").as_integer(), None);
    assert_eq!(FieldValue::Invalid.as_integer(), None);
}

#[test]
fn decimals_convert_to_thousandths() {
    assert_eq!(FieldValue::Decimal(3_600_123).as_thousandths(), Some(3_600_123));
    assert_eq!(FieldValue::Decimal(0).as_thousandths(), Some(0));
    assert_eq!(FieldValue::Unsigned(12).as_thousandths(), Some(12_000));
    assert_eq!(FieldValue::Signed(3).as_thousandths(), Some(3_000));
    assert_eq!(FieldValue::Timestamp(2).as_thousandths(), Some(2_000));
    assert_eq!(
        FieldValue::Unsigned(u64::MAX / 1000).as_thousandths(),
        Some(u64::MAX / 1000 * 1000)
    );
}

#[test]
fn decimal_conversion_fails_closed() {
    assert_eq!(FieldValue::Decimal(-1).as_thousandths(), None);
    assert_eq!(FieldValue::Signed(-3).as_thousandths(), None);
    assert_eq!(FieldValue::Timestamp(-1).as_thousandths(), None);
    assert_eq!(FieldValue::Unsigned(u64::MAX / 1000 + 1).as_thousandths(), None);
    assert_eq!(FieldValue::Signed(i64::MAX).as_thousandths(), None);
    assert_eq!(text("1.5").as_thousandths(), None);
    assert_eq!(FieldValue::Invalid.as_thousandths(), None);
}

#[test]
fn labels_come_out_of_text_and_integers() {
    assert_eq!(text("road").as_text(), Some("road".to_string()));
    assert_eq!(text("").as_text(), Some("".to_string()));
    assert_eq!(FieldValue::Unsigned(2).as_text(), Some("2".to_string()));
    assert_eq!(FieldValue::Unsigned(0).as_text(), Some("0".to_string()));
    assert_eq!(FieldValue::Unsigned(u64::MAX).as_text(), Some("18446744073709551615".to_string()));
    assert_eq!(FieldValue::Signed(58).as_text(), Some("58".to_string()));
    assert_eq!(FieldValue::Signed(-7).as_text(), Some("-7".to_string()));
    assert_eq!(FieldValue::Signed(i64::MIN).as_text(), Some("-9223372036854775808".to_string()));
}

#[test]
fn other_values_are_no_labels() {
    assert_eq!(FieldValue::Timestamp(5).as_text(), None);
    assert_eq!(FieldValue::Decimal(1_500).as_text(), None);
    assert_eq!(FieldValue::Invalid.as_text(), None);
}

#[test]
fn optional_number_defaults_to_zero() {
    let fields = vec![field("power", text("high")), field("heart_rate", FieldValue::Unsigned(140))];
    assert_eq!(get_number_value(&fields, FieldName::HeartRate), 140);
    assert_eq!(get_number_value(&fields, FieldName::Power), 0);
    assert_eq!(get_number_value(&fields, FieldName::AvgCadence), 0);
    assert_eq!(get_number_value(&Vec::new(), FieldName::Power), 0);
}

#[test]
fn optional_decimal_defaults_to_zero() {
    let fields = vec![
        field("distance", FieldValue::Decimal(-4)),
        field("total_distance", FieldValue::Decimal(1_250)),
    ];
    assert_eq!(get_decimal_value(&fields, FieldName::TotalDistance), 1_250);
    assert_eq!(get_decimal_value(&fields, FieldName::Distance), 0);
    assert_eq!(get_decimal_value(&fields, FieldName::TotalMovingTime), 0);
}

#[test]
fn first_field_of_a_name_wins() {
    let fields = vec![
        field("power", FieldValue::Unsigned(100)),
        field("power", FieldValue::Unsigned(300)),
    ];
    assert_eq!(get_number_value(&fields, FieldName::Power), 100);
}

#[test]
fn field_order_does_not_matter() {
    let mut reversed = session_fields();
    reversed.reverse();
    assert_eq!(Session::from_iter(&session_fields()), Session::from_iter(&reversed));
}

#[test]
fn session_is_extracted() {
    let session = Session::from_iter(&session_fields()).unwrap();
    assert_eq!(
        session,
        Session {
            id: None,
            start_time: 1000,
            total_elapsed_time: 3_600_500,
            total_distance: 30_250_000,
            avg_power: 210,
            total_moving_time: 3_500_000,
            avg_heart_rate: 150,
            threshold_power: 250,
            sport: "cycling".to_string(),
            sub_sport: "indoor_cycling".to_string(),
            avg_cadence: 88,
            laps: Vec::new(),
            records: Vec::new(),
            serial_num: 0,
        }
    );
}

#[test]
fn session_with_only_mandatory_fields() {
    let fields = vec![
        field("sub_sport", text("road")),
        field("total_elapsed_time", FieldValue::Unsigned(60)),
        field("start_time", FieldValue::Timestamp(5)),
        field("sport", text("cycling")),
    ];
    let session = Session::from_iter(&fields).unwrap();
    assert_eq!(session.start_time, 5);
    assert_eq!(session.total_elapsed_time, 60_000);
    assert_eq!(session.total_distance, 0);
    assert_eq!(session.total_moving_time, 0);
    assert_eq!(session.avg_power, 0);
    assert_eq!(session.avg_heart_rate, 0);
    assert_eq!(session.avg_cadence, 0);
    assert_eq!(session.threshold_power, 0);
}

fn without(fields: Vec<Field>, name: &str) -> Vec<Field> {
    fields.into_iter().filter(|f| f.name != name).collect()
}

#[test]
fn session_without_start_time_is_missing_field() {
    let fields = without(session_fields(), "start_time");
    assert_eq!(
        Session::from_iter(&fields),
        Err(ParseError::MissingField(FieldName::StartTime))
    );
}

#[test]
fn session_without_elapsed_time_is_missing_field() {
    let fields = without(session_fields(), "total_elapsed_time");
    assert_eq!(
        Session::from_iter(&fields),
        Err(ParseError::MissingField(FieldName::TotalElapsedTime))
    );
}

#[test]
fn session_without_sport_is_missing_field() {
    let fields = without(session_fields(), "sport");
    assert_eq!(Session::from_iter(&fields), Err(ParseError::MissingField(FieldName::Sport)));
    let fields = without(session_fields(), "sub_sport");
    assert_eq!(Session::from_iter(&fields), Err(ParseError::MissingField(FieldName::SubSport)));
}

#[test]
fn mandatory_fields_are_examined_in_order() {
    let fields = vec![field("sport", FieldValue::Unsigned(2))];
    assert_eq!(
        Session::from_iter(&fields),
        Err(ParseError::MissingField(FieldName::StartTime))
    );
    let fields =
        vec![field("start_time", FieldValue::Timestamp(1)), field("sport", FieldValue::Unsigned(2))];
    assert_eq!(
        Session::from_iter(&fields),
        Err(ParseError::MissingField(FieldName::TotalElapsedTime))
    );
}

#[test]
fn mandatory_field_of_wrong_type_is_type_conversion() {
    let mut fields = without(session_fields(), "start_time");
    fields.push(field("start_time", text("yesterday")));
    assert_eq!(
        Session::from_iter(&fields),
        Err(ParseError::TypeConversion(FieldName::StartTime))
    );
    let mut fields = without(session_fields(), "total_elapsed_time");
    fields.push(field("total_elapsed_time", FieldValue::Decimal(-1)));
    assert_eq!(
        Session::from_iter(&fields),
        Err(ParseError::TypeConversion(FieldName::TotalElapsedTime))
    );
    let mut fields = without(session_fields(), "sport");
    fields.push(field("sport", FieldValue::Decimal(2_000)));
    assert_eq!(Session::from_iter(&fields), Err(ParseError::TypeConversion(FieldName::Sport)));
    let mut fields = without(session_fields(), "sub_sport");
    fields.push(field("sub_sport", FieldValue::Invalid));
    assert_eq!(Session::from_iter(&fields), Err(ParseError::TypeConversion(FieldName::SubSport)));
}

#[test]
fn sport_without_a_name_is_kept_as_its_code() {
    let mut fields = without(without(session_fields(), "sport"), "sub_sport");
    fields.push(field("sport", FieldValue::Unsigned(2)));
    fields.push(field("sub_sport", FieldValue::Unsigned(58)));
    let session = Session::from_iter(&fields).unwrap();
    assert_eq!(session.sport, "2");
    assert_eq!(session.sub_sport, "58");
    assert_eq!(session.start_time, 1000);
}

#[test]
fn start_time_too_large_is_type_conversion() {
    let mut fields = without(session_fields(), "start_time");
    fields.push(field("start_time", FieldValue::Unsigned(u64::MAX)));
    assert_eq!(
        Session::from_iter(&fields),
        Err(ParseError::TypeConversion(FieldName::StartTime))
    );
}

#[test]
fn lap_is_extracted() {
    assert_eq!(
        Lap::from_iter(&lap_fields(1600)),
        Ok(Lap {
            id: None,
            start_time: 1600,
            avg_power: 200,
            avg_heart_rate: 140,
            total_moving_time: 600_000,
            total_distance: 5_000_000,
        })
    );
}

#[test]
fn lap_without_start_time_is_missing_field() {
    let fields = without(lap_fields(1), "start_time");
    assert_eq!(Lap::from_iter(&fields), Err(ParseError::MissingField(FieldName::StartTime)));
}

#[test]
fn sample_is_extracted() {
    assert_eq!(
        Record::from_iter(&record_fields(1001, 220, 125)),
        Ok(Record { id: None, timestamp: 1001, heart_rate: 125, power: 220, distance: 12_500 })
    );
}

#[test]
fn sample_without_distance_has_distance_zero() {
    let fields = without(record_fields(1001, 220, 125), "distance");
    assert_eq!(
        Record::from_iter(&fields),
        Ok(Record { id: None, timestamp: 1001, heart_rate: 125, power: 220, distance: 0 })
    );
}

#[test]
fn sample_with_timestamp_alone() {
    let fields = vec![field("timestamp", FieldValue::Timestamp(9))];
    assert_eq!(
        Record::from_iter(&fields),
        Ok(Record { id: None, timestamp: 9, heart_rate: 0, power: 0, distance: 0 })
    );
}

#[test]
fn sample_without_timestamp_is_missing_field() {
    let fields = without(record_fields(1001, 220, 125), "timestamp");
    assert_eq!(Record::from_iter(&fields), Err(ParseError::MissingField(FieldName::Timestamp)));
    let fields = vec![field("timestamp", FieldValue::Decimal(1_000))];
    assert_eq!(Record::from_iter(&fields), Err(ParseError::TypeConversion(FieldName::Timestamp)));
}

#[test]
fn duplicate_keeps_everything() {
    let session = get_session_data(&whole_file()).unwrap();
    assert_eq!(session.duplicate(), session);
}

#[test]
fn whole_file_is_assembled() {
    let assembled = assemble(&whole_file(), Malformed::Skip, Sampling::Full).unwrap();
    assert_eq!(assembled.skipped, 0);
    let session = assembled.session;
    assert_eq!(session.id, None);
    assert_eq!(session.start_time, 1000);
    assert_eq!(session.sport, "cycling");
    assert_eq!(session.sub_sport, "indoor_cycling");
    assert_eq!(session.serial_num, 3_912_345);
    assert_eq!(session.laps.len(), 2);
    assert_eq!(session.laps[0].start_time, 1000);
    assert_eq!(session.laps[1].start_time, 1600);
    assert_eq!(session.records.len(), 3);
    assert_eq!(session.records[0].timestamp, 1000);
    assert_eq!(session.records[1].timestamp, 1001);
    assert_eq!(session.records[2].timestamp, 1002);
    assert_eq!(session.records[2].power, 240);
}

#[test]
fn session_data_is_the_assembled_session() {
    let assembled = assemble(&whole_file(), Malformed::Skip, Sampling::Full).unwrap();
    assert_eq!(get_session_data(&whole_file()), Ok(assembled.session));
}

#[test]
fn no_session_message_fails_assembly() {
    let messages: Vec<Message> =
        whole_file().into_iter().filter(|m| m.kind != MessageKind::Session).collect();
    assert_eq!(get_session_data(&messages), Err(ParseError::NoSessionMessage));
    assert_eq!(get_session_data(&Vec::new()), Err(ParseError::NoSessionMessage));
    assert_eq!(
        assemble(&messages, Malformed::Abort, Sampling::Full),
        Err(ParseError::NoSessionMessage)
    );
}

#[test]
fn session_message_without_start_time_fails_assembly() {
    let mut messages = whole_file();
    messages[6] = message(MessageKind::Session, without(session_fields(), "start_time"));
    assert_eq!(
        get_session_data(&messages),
        Err(ParseError::MissingField(FieldName::StartTime))
    );
}

#[test]
fn first_session_message_is_used() {
    let mut messages = whole_file();
    let mut later = without(session_fields(), "start_time");
    later.push(field("start_time", FieldValue::Timestamp(99_999)));
    messages.push(message(MessageKind::Session, later));
    assert_eq!(get_session_data(&messages).unwrap().start_time, 1000);
}

#[test]
fn missing_serial_number_defaults_to_zero() {
    let messages: Vec<Message> =
        whole_file().into_iter().filter(|m| m.kind != MessageKind::FileId).collect();
    assert_eq!(get_file_serial_num(&messages), 0);
    assert_eq!(get_session_data(&messages).unwrap().serial_num, 0);
    let mut messages = whole_file();
    messages[0] = message(MessageKind::FileId, vec![field("serial_number", text("n/a"))]);
    assert_eq!(get_file_serial_num(&messages), 0);
    messages[0] = message(MessageKind::FileId, Vec::new());
    assert_eq!(get_file_serial_num(&messages), 0);
}

#[test]
fn serial_number_comes_from_first_file_identity() {
    let mut messages = whole_file();
    messages.push(message(MessageKind::FileId, vec![field("serial_number", FieldValue::Unsigned(1))]));
    assert_eq!(get_file_serial_num(&messages), 3_912_345);
}

fn with_malformed_items() -> Vec<Message> {
    let mut messages = whole_file();
    messages.insert(2, message(MessageKind::Record, vec![field("power", FieldValue::Unsigned(1))]));
    messages.insert(5, message(MessageKind::Lap, vec![field("start_time", text("soon"))]));
    messages.push(message(MessageKind::Record, Vec::new()));
    messages
}

#[test]
fn malformed_items_are_skipped_and_counted() {
    let assembled = assemble(&with_malformed_items(), Malformed::Skip, Sampling::Full).unwrap();
    assert_eq!(assembled.skipped, 3);
    assert_eq!(assembled.session.laps.len(), 2);
    assert_eq!(assembled.session.records.len(), 3);
    assert_eq!(
        assembled.session,
        assemble(&whole_file(), Malformed::Skip, Sampling::Full).unwrap().session
    );
}

#[test]
fn malformed_lap_aborts_before_malformed_sample() {
    assert_eq!(
        assemble(&with_malformed_items(), Malformed::Abort, Sampling::Full),
        Err(ParseError::TypeConversion(FieldName::StartTime))
    );
}

#[test]
fn malformed_sample_aborts() {
    let mut messages = whole_file();
    messages.push(message(MessageKind::Record, Vec::new()));
    assert_eq!(
        assemble(&messages, Malformed::Abort, Sampling::Full),
        Err(ParseError::MissingField(FieldName::Timestamp))
    );
}

#[test]
fn abort_policy_accepts_clean_file() {
    assert_eq!(
        assemble(&whole_file(), Malformed::Abort, Sampling::Full),
        assemble(&whole_file(), Malformed::Skip, Sampling::Full)
    );
}

#[test]
fn laps_are_collected_in_source_order() {
    let (laps, skipped) = get_laps_data(&with_malformed_items(), Malformed::Skip).unwrap();
    assert_eq!(skipped, 1);
    assert_eq!(laps.iter().map(|l| l.start_time).collect::<Vec<i64>>(), vec![1000, 1600]);
    assert_eq!(
        get_laps_data(&with_malformed_items(), Malformed::Abort),
        Err(ParseError::TypeConversion(FieldName::StartTime))
    );
}

#[test]
fn samples_are_collected_in_source_order() {
    let (records, skipped) = get_record_data(&with_malformed_items(), Malformed::Skip).unwrap();
    assert_eq!(skipped, 2);
    assert_eq!(records.iter().map(|r| r.timestamp).collect::<Vec<i64>>(), vec![1000, 1001, 1002]);
    assert_eq!(
        get_record_data(&with_malformed_items(), Malformed::Abort),
        Err(ParseError::MissingField(FieldName::Timestamp))
    );
}

#[test]
fn samples_are_not_sorted() {
    let messages = vec![
        message(MessageKind::Record, record_fields(30, 1, 1)),
        message(MessageKind::Record, record_fields(10, 1, 1)),
        message(MessageKind::Record, record_fields(20, 1, 1)),
        message(MessageKind::Record, record_fields(10, 1, 1)),
    ];
    let (records, _) = get_record_data(&messages, Malformed::Skip).unwrap();
    assert_eq!(records.iter().map(|r| r.timestamp).collect::<Vec<i64>>(), vec![30, 10, 20, 10]);
}

fn samples(count: i64) -> Vec<Record> {
    (0..count)
        .map(|i| Record { id: None, timestamp: i, heart_rate: 100, power: 200, distance: 0 })
        .collect()
}

fn stamps(records: &[Record]) -> Vec<i64> {
    records.iter().map(|r| r.timestamp).collect()
}

#[test]
fn full_sampling_keeps_every_sample() {
    assert_eq!(thin(samples(7), Sampling::Full), samples(7));
    assert_eq!(thin(samples(7), Sampling::Every(0)), samples(7));
    assert_eq!(thin(samples(7), Sampling::Every(1)), samples(7));
    assert_eq!(thin(Vec::new(), Sampling::Full), Vec::new());
}

#[test]
fn stride_keeps_every_nth_sample() {
    assert_eq!(stamps(&thin(samples(7), Sampling::Every(3))), vec![0, 3, 6]);
    assert_eq!(stamps(&thin(samples(6), Sampling::Every(3))), vec![0, 3]);
    assert_eq!(stamps(&thin(samples(7), Sampling::Every(2))), vec![0, 2, 4, 6]);
    assert_eq!(stamps(&thin(samples(1), Sampling::Every(5))), vec![0]);
    assert_eq!(stamps(&thin(samples(5), Sampling::Every(5))), vec![0]);
    assert_eq!(stamps(&thin(samples(6), Sampling::Every(5))), vec![0, 5]);
    assert_eq!(stamps(&thin(samples(3), Sampling::Every(usize::MAX))), vec![0]);
    assert_eq!(thin(Vec::new(), Sampling::Every(4)), Vec::new());
}

#[test]
fn assembly_thins_samples_on_request() {
    let assembled = assemble(&whole_file(), Malformed::Skip, Sampling::Every(2)).unwrap();
    assert_eq!(stamps(&assembled.session.records), vec![1000, 1002]);
    assert_eq!(assembled.skipped, 0);
    assert_eq!(assembled.session.laps.len(), 2);
}

#[test]
fn default_sampling_is_full() {
    assert_eq!(Sampling::default(), Sampling::Full);
}

#[test]
fn init_refuses_other_files() {
    assert_eq!(init(&"notes.txt".to_string(), &whole_file()), Err(ParseError::NotFitFile));
}

#[test]
fn init_assembles_fit_files() {
    assert_eq!(init(&"ride.fit".to_string(), &whole_file()), get_session_data(&whole_file()));
    assert_eq!(init(&"ride.fit".to_string(), &Vec::new()), Err(ParseError::NoSessionMessage));
}

#[test]
fn parse_errors_describe_themselves() {
    assert_eq!(ParseError::NotFitFile.message(), "Not a fit file");
    assert_eq!(ParseError::NoSessionMessage.message(), "No session message in the file");
    assert_eq!(
        ParseError::MissingField(FieldName::StartTime).message(),
        "Missing field start_time"
    );
    assert_eq!(
        ParseError::TypeConversion(FieldName::TotalDistance).message(),
        "Unusable value in field total_distance"
    );
}

#[test]
fn find_field_returns_the_first_match() {
    let fields = vec![
        field("heart_rate", FieldValue::Unsigned(1)),
        field("power", FieldValue::Unsigned(2)),
        field("power", FieldValue::Unsigned(3)),
    ];
    assert_eq!(find_field(&fields, FieldName::Power), Some(&FieldValue::Unsigned(2)));
    assert_eq!(find_field(&fields, FieldName::HeartRate), Some(&FieldValue::Unsigned(1)));
    assert_eq!(find_field(&fields, FieldName::Distance), None);
    assert_eq!(find_field(&Vec::new(), FieldName::Power), None);
}

#[test]
fn field_names_match_exactly() {
    let fields = vec![
        field("Power", FieldValue::Unsigned(1)),
        field("power ", FieldValue::Unsigned(2)),
        field("powe", FieldValue::Unsigned(3)),
        field("avg_power", FieldValue::Unsigned(4)),
    ];
    assert_eq!(find_field(&fields, FieldName::Power), None);
    assert_eq!(find_field(&fields, FieldName::AvgPower), Some(&FieldValue::Unsigned(4)));
}

#[test]
fn find_message_returns_the_first_of_its_kind() {
    let messages = whole_file();
    assert_eq!(find_message(&messages, MessageKind::Session), Some(&messages[6]));
    assert_eq!(find_message(&messages, MessageKind::Record), Some(&messages[1]));
    assert_eq!(find_message(&messages, MessageKind::Lap), Some(&messages[3]));
    assert_eq!(find_message(&messages, MessageKind::FileId), Some(&messages[0]));
    assert_eq!(find_message(&Vec::new(), MessageKind::Session), None);
}
