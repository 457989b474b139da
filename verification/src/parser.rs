//! Field extraction and activity assembly.
//!
//! A decoded workout file is a sequence of [`Message`]s, each an unordered bag
//! of named, dynamically typed [`Field`]s. This module turns such bags into the
//! fixed-shape records [`Session`], [`Lap`] and [`Record`].
//!
//! Decimal quantities (durations in seconds, distances in metres) are held
//! exactly, as whole thousandths of their unit, in unsigned integers.

use vstd::prelude::*;
use vstd::string::*;
use crate::text::{decimal, render_decimal, render_signed, signed_decimal};

verus! {

/// The closed set of field names that extraction looks for.
#[derive(Clone, Copy, Debug, PartialEq, Eq, Structural)]
pub enum FieldName {
    StartTime,
    AvgPower,
    TotalMovingTime,
    TotalElapsedTime,
    AvgCadence,
    TotalDistance,
    Sport,
    SubSport,
    ThresholdPower,
    AvgHeartRate,
    SerialNumber,
    Power,
    Timestamp,
    Distance,
    HeartRate,
}

impl FieldName {
    /// The name under which the decoder files this field.
    pub open spec fn name(self) -> Seq<char> {
        match self {
            FieldName::StartTime => "start_time"@,
            FieldName::AvgPower => "avg_power"@,
            FieldName::TotalMovingTime => "total_moving_time"@,
            FieldName::TotalElapsedTime => "total_elapsed_time"@,
            FieldName::AvgCadence => "avg_cadence"@,
            FieldName::TotalDistance => "total_distance"@,
            FieldName::Sport => "sport"@,
            FieldName::SubSport => "sub_sport"@,
            FieldName::ThresholdPower => "threshold_power"@,
            FieldName::AvgHeartRate => "avg_heart_rate"@,
            FieldName::SerialNumber => "serial_number"@,
            FieldName::Power => "power"@,
            FieldName::Timestamp => "timestamp"@,
            FieldName::Distance => "distance"@,
            FieldName::HeartRate => "heart_rate"@,
        }
    }

    /// The decoder's name for this field, as text.
    pub fn as_str(self) -> (text: &'static str)
        ensures
            text@ == self.name(),
    {
        match self {
            FieldName::StartTime => "start_time",
            FieldName::AvgPower => "avg_power",
            FieldName::TotalMovingTime => "total_moving_time",
            FieldName::TotalElapsedTime => "total_elapsed_time",
            FieldName::AvgCadence => "avg_cadence",
            FieldName::TotalDistance => "total_distance",
            FieldName::Sport => "sport",
            FieldName::SubSport => "sub_sport",
            FieldName::ThresholdPower => "threshold_power",
            FieldName::AvgHeartRate => "avg_heart_rate",
            FieldName::SerialNumber => "serial_number",
            FieldName::Power => "power",
            FieldName::Timestamp => "timestamp",
            FieldName::Distance => "distance",
            FieldName::HeartRate => "heart_rate",
        }
    }
}

/// A dynamically typed scalar as the decoder hands it over.
#[derive(Clone, Debug, PartialEq, Eq)]
pub enum FieldValue {
    /// A point in time, in whole seconds since the Unix epoch.
    Timestamp(i64),
    /// A signed integer of any width up to 64 bits.
    Signed(i64),
    /// An unsigned integer of any width up to 64 bits.
    Unsigned(u64),
    /// A floating-point reading, held exactly in thousandths.
    Decimal(i64),
    /// Text.
    Text(String),
    /// Anything else: an array, or a value the decoder marked invalid.
    Invalid,
}

/// One named value of a message.
#[derive(Clone, Debug, PartialEq, Eq)]
pub struct Field {
    pub name: String,
    pub value: FieldValue,
}

/// The kinds of message that assembly tells apart.
#[derive(Clone, Copy, Debug, PartialEq, Eq, Structural)]
pub enum MessageKind {
    FileId,
    Session,
    Lap,
    Record,
    Other,
}

/// One decoded message: its kind and its bag of fields.
#[derive(Clone, Debug, PartialEq, Eq)]
pub struct Message {
    pub kind: MessageKind,
    pub fields: Vec<Field>,
}

/// Why extraction or assembly gave up.
#[derive(Clone, Copy, Debug, PartialEq, Eq, Structural)]
pub enum ParseError {
    /// The path does not name a workout recording.
    NotFitFile,
    /// The message stream holds no session-level message.
    NoSessionMessage,
    /// A mandatory field is absent.
    MissingField(FieldName),
    /// A mandatory field holds a value that does not fit its declared type.
    TypeConversion(FieldName),
}

/// One marked sub-interval of an activity.
#[derive(Clone, Copy, Debug, PartialEq, Eq, Structural)]
pub struct Lap {
    pub id: Option<i64>,
    pub start_time: i64,
    pub avg_power: i64,
    pub avg_heart_rate: i64,
    /// Thousandths of a second.
    pub total_moving_time: u64,
    /// Thousandths of a metre.
    pub total_distance: u64,
}

/// One timestamped measurement within an activity.
#[derive(Clone, Copy, Debug, PartialEq, Eq, Structural)]
pub struct Record {
    pub id: Option<i64>,
    pub timestamp: i64,
    pub heart_rate: i64,
    pub power: i64,
    /// Thousandths of a metre.
    pub distance: u64,
}

/// One recorded workout with the laps and samples it owns.
#[derive(Clone, Debug, PartialEq, Eq)]
pub struct Session {
    pub id: Option<i64>,
    pub start_time: i64,
    /// Thousandths of a second.
    pub total_elapsed_time: u64,
    /// Thousandths of a metre.
    pub total_distance: u64,
    pub avg_power: i64,
    /// Thousandths of a second.
    pub total_moving_time: u64,
    pub avg_heart_rate: i64,
    pub threshold_power: i64,
    pub sport: String,
    pub sub_sport: String,
    pub avg_cadence: i64,
    pub laps: Vec<Lap>,
    pub records: Vec<Record>,
    pub serial_num: i64,
}

/// The mathematical content of a [`Session`].
pub struct SessionView {
    pub id: Option<i64>,
    pub start_time: i64,
    pub total_elapsed_time: u64,
    pub total_distance: u64,
    pub avg_power: i64,
    pub total_moving_time: u64,
    pub avg_heart_rate: i64,
    pub threshold_power: i64,
    pub sport: Seq<char>,
    pub sub_sport: Seq<char>,
    pub avg_cadence: i64,
    pub laps: Seq<Lap>,
    pub records: Seq<Record>,
    pub serial_num: i64,
}

impl View for Session {
    type V = SessionView;

    open spec fn view(&self) -> SessionView {
        SessionView {
            id: self.id,
            start_time: self.start_time,
            total_elapsed_time: self.total_elapsed_time,
            total_distance: self.total_distance,
            avg_power: self.avg_power,
            total_moving_time: self.total_moving_time,
            avg_heart_rate: self.avg_heart_rate,
            threshold_power: self.threshold_power,
            sport: self.sport@,
            sub_sport: self.sub_sport@,
            avg_cadence: self.avg_cadence,
            laps: self.laps@,
            records: self.records@,
            serial_num: self.serial_num,
        }
    }
}

impl FieldValue {
    /// The value as a 64-bit signed integer, where it is an integer that fits.
    /// Floating-point readings and text are no integers.
    pub open spec fn integer(self) -> Option<i64> {
        match self {
            FieldValue::Timestamp(t) => Some(t),
            FieldValue::Signed(v) => Some(v),
            FieldValue::Unsigned(v) => if v <= i64::MAX {
                Some(v as i64)
            } else {
                None
            },
            _ => None,
        }
    }

    /// The value in whole thousandths, where it is a number that is not
    /// negative and whose thousandths fit in 64 bits.
    pub open spec fn thousandths(self) -> Option<u64> {
        match self {
            FieldValue::Timestamp(t) => if 0 <= t && t * 1000 <= u64::MAX {
                Some((t * 1000) as u64)
            } else {
                None
            },
            FieldValue::Signed(v) => if 0 <= v && v * 1000 <= u64::MAX {
                Some((v * 1000) as u64)
            } else {
                None
            },
            FieldValue::Unsigned(v) => if v * 1000 <= u64::MAX {
                Some((v * 1000) as u64)
            } else {
                None
            },
            FieldValue::Decimal(d) => if 0 <= d {
                Some(d as u64)
            } else {
                None
            },
            _ => None,
        }
    }

    /// The value as a label: text as it is, and an integer as its decimal
    /// numeral, which is how a code without a name reads. A timestamp, a
    /// floating-point reading and an invalid value are no labels.
    pub open spec fn text(self) -> Option<Seq<char>> {
        match self {
            FieldValue::Text(s) => Some(s@),
            FieldValue::Signed(v) => Some(signed_decimal(v as int)),
            FieldValue::Unsigned(v) => Some(decimal(v as nat)),
            _ => None,
        }
    }

    /// Converts to a signed integer, failing closed.
    pub fn as_integer(&self) -> (n: Option<i64>)
        ensures
            n == self.integer(),
    {
        match self {
            FieldValue::Timestamp(t) => Some(*t),
            FieldValue::Signed(v) => Some(*v),
            FieldValue::Unsigned(v) => if *v <= i64::MAX as u64 {
                Some(*v as i64)
            } else {
                None
            },
            _ => None,
        }
    }

    /// Converts to whole thousandths, failing closed.
    pub fn as_thousandths(&self) -> (n: Option<u64>)
        ensures
            n == self.thousandths(),
    {
        match self {
            FieldValue::Timestamp(t) => whole_to_thousandths(*t),
            FieldValue::Signed(v) => whole_to_thousandths(*v),
            FieldValue::Unsigned(v) => v.checked_mul(1000),
            FieldValue::Decimal(d) => if 0 <= *d {
                Some(*d as u64)
            } else {
                None
            },
            _ => None,
        }
    }

    /// Writes the value as a label, where it is text or an integer.
    pub fn as_text(&self) -> (t: Option<String>)
        ensures
            match t {
                Some(s) => self.text() == Some(s@),
                None => self.text() is None,
            },
    {
        match self {
            FieldValue::Text(s) => Some(s.clone()),
            FieldValue::Signed(v) => Some(render_signed(*v)),
            FieldValue::Unsigned(v) => Some(render_decimal(*v as u128)),
            _ => None,
        }
    }
}

fn whole_to_thousandths(v: i64) -> (n: Option<u64>)
    ensures
        n == if 0 <= v && v * 1000 <= u64::MAX {
            Some((v * 1000) as u64)
        } else {
            None::<u64>
        },
{
    if v < 0 {
        None
    } else {
        (v as u64).checked_mul(1000)
    }
}

/// The value of the first field called `name`, if there is one.
pub open spec fn lookup(fields: Seq<Field>, name: Seq<char>) -> Option<FieldValue>
    decreases fields.len(),
{
    if fields.len() == 0 {
        None
    } else if fields[0].name@ == name {
        Some(fields[0].value)
    } else {
        lookup(fields.drop_first(), name)
    }
}

/// Finds the first field with the given name. Fields with other names,
/// recognised or not, are passed over.
pub fn find_field<'a>(fields: &'a Vec<Field>, field_name: FieldName) -> (found: Option<
    &'a FieldValue,
>)
    ensures
        match found {
            Some(v) => lookup(fields@, field_name.name()) == Some(*v),
            None => lookup(fields@, field_name.name()) is None,
        },
{
    let wanted: String = field_name.as_str().to_owned();
    let mut i: usize = 0;
    assert(fields@.skip(0) =~= fields@);
    while i < fields.len()
        invariant
            i <= fields.len(),
            wanted@ == field_name.name(),
            lookup(fields@, field_name.name()) == lookup(fields@.skip(i as int), field_name.name()),
        decreases fields.len() - i,
    {
        assert(fields@.skip(i as int).drop_first() =~= fields@.skip(i as int + 1));
        if fields[i].name == wanted {
            return Some(&fields[i].value);
        }
        i = i + 1;
    }
    None
}

/// An optional integer measure: the field's value, or zero where the field
/// is absent or holds no integer that fits.
pub open spec fn number_or_zero(fields: Seq<Field>, name: FieldName) -> i64 {
    match lookup(fields, name.name()) {
        Some(v) => match v.integer() {
            Some(n) => n,
            None => 0,
        },
        None => 0,
    }
}

/// An optional decimal measure, in thousandths: the field's value, or zero
/// where the field is absent or does not convert.
pub open spec fn decimal_or_zero(fields: Seq<Field>, name: FieldName) -> u64 {
    match lookup(fields, name.name()) {
        Some(v) => match v.thousandths() {
            Some(n) => n,
            None => 0,
        },
        None => 0,
    }
}

/// A mandatory integer measure.
pub open spec fn required_number(fields: Seq<Field>, name: FieldName) -> Result<i64, ParseError> {
    match lookup(fields, name.name()) {
        Some(v) => match v.integer() {
            Some(n) => Ok(n),
            None => Err(ParseError::TypeConversion(name)),
        },
        None => Err(ParseError::MissingField(name)),
    }
}

/// A mandatory decimal measure, in thousandths.
pub open spec fn required_decimal(fields: Seq<Field>, name: FieldName) -> Result<u64, ParseError> {
    match lookup(fields, name.name()) {
        Some(v) => match v.thousandths() {
            Some(n) => Ok(n),
            None => Err(ParseError::TypeConversion(name)),
        },
        None => Err(ParseError::MissingField(name)),
    }
}

/// A mandatory label.
pub open spec fn required_text(fields: Seq<Field>, name: FieldName) -> Result<
    Seq<char>,
    ParseError,
> {
    match lookup(fields, name.name()) {
        Some(v) => match v.text() {
            Some(s) => Ok(s),
            None => Err(ParseError::TypeConversion(name)),
        },
        None => Err(ParseError::MissingField(name)),
    }
}

/// Reads an optional integer measure, defaulting to zero.
pub fn get_number_value(fields: &Vec<Field>, field_name: FieldName) -> (value: i64)
    ensures
        value == number_or_zero(fields@, field_name),
{
    match find_field(fields, field_name) {
        Some(data) => match data.as_integer() {
            Some(n) => n,
            None => 0,
        },
        None => 0,
    }
}

/// Reads an optional decimal measure in thousandths, defaulting to zero.
pub fn get_decimal_value(fields: &Vec<Field>, field_name: FieldName) -> (value: u64)
    ensures
        value == decimal_or_zero(fields@, field_name),
{
    match find_field(fields, field_name) {
        Some(data) => match data.as_thousandths() {
            Some(n) => n,
            None => 0,
        },
        None => 0,
    }
}

/// Reads a mandatory integer measure.
pub fn get_required_number(fields: &Vec<Field>, field_name: FieldName) -> (value: Result<
    i64,
    ParseError,
>)
    ensures
        value == required_number(fields@, field_name),
{
    match find_field(fields, field_name) {
        Some(data) => match data.as_integer() {
            Some(n) => Ok(n),
            None => Err(ParseError::TypeConversion(field_name)),
        },
        None => Err(ParseError::MissingField(field_name)),
    }
}

/// Reads a mandatory decimal measure in thousandths.
pub fn get_required_decimal(fields: &Vec<Field>, field_name: FieldName) -> (value: Result<
    u64,
    ParseError,
>)
    ensures
        value == required_decimal(fields@, field_name),
{
    match find_field(fields, field_name) {
        Some(data) => match data.as_thousandths() {
            Some(n) => Ok(n),
            None => Err(ParseError::TypeConversion(field_name)),
        },
        None => Err(ParseError::MissingField(field_name)),
    }
}

/// Reads a mandatory label.
pub fn get_required_text(fields: &Vec<Field>, field_name: FieldName) -> (value: Result<
    String,
    ParseError,
>)
    ensures
        match value {
            Ok(s) => required_text(fields@, field_name) == Ok::<Seq<char>, ParseError>(s@),
            Err(e) => required_text(fields@, field_name) == Err::<Seq<char>, ParseError>(e),
        },
{
    match find_field(fields, field_name) {
        Some(data) => match data.as_text() {
            Some(s) => Ok(s),
            None => Err(ParseError::TypeConversion(field_name)),
        },
        None => Err(ParseError::MissingField(field_name)),
    }
}

/// What a bag of session fields amounts to. The start time, the elapsed
/// time, the sport and the sub-sport are mandatory and are examined in that
/// order; every other measure defaults to zero. A fresh session has no
/// identity, serial number zero, and owns no laps or samples yet.
pub open spec fn session_of(fields: Seq<Field>) -> Result<SessionView, ParseError> {
    match required_number(fields, FieldName::StartTime) {
        Err(e) => Err(e),
        Ok(start_time) => match required_decimal(fields, FieldName::TotalElapsedTime) {
            Err(e) => Err(e),
            Ok(total_elapsed_time) => match required_text(fields, FieldName::Sport) {
                Err(e) => Err(e),
                Ok(sport) => match required_text(fields, FieldName::SubSport) {
                    Err(e) => Err(e),
                    Ok(sub_sport) => Ok(
                        SessionView {
                            id: None,
                            start_time,
                            total_elapsed_time,
                            total_distance: decimal_or_zero(fields, FieldName::TotalDistance),
                            avg_power: number_or_zero(fields, FieldName::AvgPower),
                            total_moving_time: decimal_or_zero(fields, FieldName::TotalMovingTime),
                            avg_heart_rate: number_or_zero(fields, FieldName::AvgHeartRate),
                            threshold_power: number_or_zero(fields, FieldName::ThresholdPower),
                            sport,
                            sub_sport,
                            avg_cadence: number_or_zero(fields, FieldName::AvgCadence),
                            laps: Seq::empty(),
                            records: Seq::empty(),
                            serial_num: 0,
                        },
                    ),
                },
            },
        },
    }
}

/// What a bag of lap fields amounts to. Only the start time is mandatory.
pub open spec fn lap_of(fields: Seq<Field>) -> Result<Lap, ParseError> {
    match required_number(fields, FieldName::StartTime) {
        Err(e) => Err(e),
        Ok(start_time) => Ok(
            Lap {
                id: None,
                start_time,
                avg_power: number_or_zero(fields, FieldName::AvgPower),
                avg_heart_rate: number_or_zero(fields, FieldName::AvgHeartRate),
                total_moving_time: decimal_or_zero(fields, FieldName::TotalMovingTime),
                total_distance: decimal_or_zero(fields, FieldName::TotalDistance),
            },
        ),
    }
}

/// What a bag of sample fields amounts to. Only the timestamp is mandatory.
pub open spec fn record_of(fields: Seq<Field>) -> Result<Record, ParseError> {
    match required_number(fields, FieldName::Timestamp) {
        Err(e) => Err(e),
        Ok(timestamp) => Ok(
            Record {
                id: None,
                timestamp,
                heart_rate: number_or_zero(fields, FieldName::HeartRate),
                power: number_or_zero(fields, FieldName::Power),
                distance: decimal_or_zero(fields, FieldName::Distance),
            },
        ),
    }
}

impl Session {
    /// Builds a session from the fields of a session-level message.
    pub fn from_iter(fields: &Vec<Field>) -> (session: Result<Session, ParseError>)
        ensures
            match session {
                Ok(s) => session_of(fields@) == Ok::<SessionView, ParseError>(s@),
                Err(e) => session_of(fields@) == Err::<SessionView, ParseError>(e),
            },
    {
        let start_time: i64 = match get_required_number(fields, FieldName::StartTime) {
            Ok(n) => n,
            Err(e) => {
                return Err(e);
            },
        };
        let total_elapsed_time: u64 = match get_required_decimal(
            fields,
            FieldName::TotalElapsedTime,
        ) {
            Ok(n) => n,
            Err(e) => {
                return Err(e);
            },
        };
        let sport = match get_required_text(fields, FieldName::Sport) {
            Ok(s) => s,
            Err(e) => {
                return Err(e);
            },
        };
        let sub_sport = match get_required_text(fields, FieldName::SubSport) {
            Ok(s) => s,
            Err(e) => {
                return Err(e);
            },
        };
        Ok(
            Session {
                id: None,
                start_time,
                total_elapsed_time,
                total_distance: get_decimal_value(fields, FieldName::TotalDistance),
                avg_power: get_number_value(fields, FieldName::AvgPower),
                total_moving_time: get_decimal_value(fields, FieldName::TotalMovingTime),
                avg_heart_rate: get_number_value(fields, FieldName::AvgHeartRate),
                threshold_power: get_number_value(fields, FieldName::ThresholdPower),
                sport,
                sub_sport,
                avg_cadence: get_number_value(fields, FieldName::AvgCadence),
                serial_num: 0,
                laps: Vec::new(),
                records: Vec::new(),
            },
        )
    }

    /// An independent copy with the same content.
    pub fn duplicate(&self) -> (copy: Session)
        ensures
            copy@ == self@,
    {
        let laps = self.laps.clone();
        let records = self.records.clone();
        assert(laps@ =~= self.laps@);
        assert(records@ =~= self.records@);
        Session {
            id: self.id,
            start_time: self.start_time,
            total_elapsed_time: self.total_elapsed_time,
            total_distance: self.total_distance,
            avg_power: self.avg_power,
            total_moving_time: self.total_moving_time,
            avg_heart_rate: self.avg_heart_rate,
            threshold_power: self.threshold_power,
            sport: self.sport.clone(),
            sub_sport: self.sub_sport.clone(),
            avg_cadence: self.avg_cadence,
            laps,
            records,
            serial_num: self.serial_num,
        }
    }
}

impl Lap {
    /// Builds a lap from the fields of a lap message.
    pub fn from_iter(fields: &Vec<Field>) -> (lap: Result<Lap, ParseError>)
        ensures
            lap == lap_of(fields@),
    {
        let start_time: i64 = match get_required_number(fields, FieldName::StartTime) {
            Ok(n) => n,
            Err(e) => {
                return Err(e);
            },
        };
        Ok(
            Lap {
                id: None,
                start_time,
                total_distance: get_decimal_value(fields, FieldName::TotalDistance),
                avg_power: get_number_value(fields, FieldName::AvgPower),
                total_moving_time: get_decimal_value(fields, FieldName::TotalMovingTime),
                avg_heart_rate: get_number_value(fields, FieldName::AvgHeartRate),
            },
        )
    }
}

impl Record {
    /// Builds a sample from the fields of a record message.
    pub fn from_iter(fields: &Vec<Field>) -> (record: Result<Record, ParseError>)
        ensures
            record == record_of(fields@),
    {
        let timestamp: i64 = match get_required_number(fields, FieldName::Timestamp) {
            Ok(n) => n,
            Err(e) => {
                return Err(e);
            },
        };
        Ok(
            Record {
                id: None,
                timestamp,
                distance: get_decimal_value(fields, FieldName::Distance),
                power: get_number_value(fields, FieldName::Power),
                heart_rate: get_number_value(fields, FieldName::HeartRate),
            },
        )
    }
}

/// True exactly for paths whose last four characters are `.fit`.
pub open spec fn has_fit_extension(path: Seq<char>) -> bool {
    &&& path.len() >= 4
    &&& path[path.len() - 4] == '.'
    &&& path[path.len() - 3] == 'f'
    &&& path[path.len() - 2] == 'i'
    &&& path[path.len() - 1] == 't'
}

/// Tells whether `file` names a workout recording, judged by its extension.
pub fn is_fit_file(file: &String) -> (fit: bool)
    ensures
        fit == has_fit_extension(file@),
{
    let path = file.as_str();
    let len: usize = path.unicode_len();
    if len < 4 {
        return false;
    }
    path.get_char(len - 4) == '.' && path.get_char(len - 3) == 'f' && path.get_char(len - 2) == 'i'
        && path.get_char(len - 1) == 't'
}

/// What assembly does with a lap or sample message that fails extraction.
#[derive(Clone, Copy, Debug, PartialEq, Eq, Structural)]
pub enum Malformed {
    /// Leave the item out and count it.
    Skip,
    /// Give up on the whole activity with the item's error.
    Abort,
}

/// The first message of the given kind, if there is one.
pub open spec fn first_of_kind(messages: Seq<Message>, kind: MessageKind) -> Option<Message>
    decreases messages.len(),
{
    if messages.len() == 0 {
        None
    } else if messages[0].kind == kind {
        Some(messages[0])
    } else {
        first_of_kind(messages.drop_first(), kind)
    }
}

/// The laps that extract cleanly, in source order.
pub open spec fn laps_in(messages: Seq<Message>) -> Seq<Lap>
    decreases messages.len(),
{
    if messages.len() == 0 {
        Seq::empty()
    } else {
        let earlier = laps_in(messages.drop_last());
        let last = messages.last();
        if last.kind == MessageKind::Lap && lap_of(last.fields@) is Ok {
            earlier.push(lap_of(last.fields@)->Ok_0)
        } else {
            earlier
        }
    }
}

/// How many lap messages fail extraction.
pub open spec fn malformed_laps(messages: Seq<Message>) -> nat
    decreases messages.len(),
{
    if messages.len() == 0 {
        0
    } else {
        let last = messages.last();
        malformed_laps(messages.drop_last()) + if last.kind == MessageKind::Lap && lap_of(
            last.fields@,
        ) is Err {
            1nat
        } else {
            0nat
        }
    }
}

/// The error of the first lap message that fails extraction.
pub open spec fn first_lap_error(messages: Seq<Message>) -> Option<ParseError>
    decreases messages.len(),
{
    if messages.len() == 0 {
        None
    } else if messages[0].kind == MessageKind::Lap && lap_of(messages[0].fields@) is Err {
        Some(lap_of(messages[0].fields@)->Err_0)
    } else {
        first_lap_error(messages.drop_first())
    }
}

/// The samples that extract cleanly, in source order.
pub open spec fn records_in(messages: Seq<Message>) -> Seq<Record>
    decreases messages.len(),
{
    if messages.len() == 0 {
        Seq::empty()
    } else {
        let earlier = records_in(messages.drop_last());
        let last = messages.last();
        if last.kind == MessageKind::Record && record_of(last.fields@) is Ok {
            earlier.push(record_of(last.fields@)->Ok_0)
        } else {
            earlier
        }
    }
}

/// How many record messages fail extraction.
pub open spec fn malformed_records(messages: Seq<Message>) -> nat
    decreases messages.len(),
{
    if messages.len() == 0 {
        0
    } else {
        let last = messages.last();
        malformed_records(messages.drop_last()) + if last.kind == MessageKind::Record
            && record_of(last.fields@) is Err {
            1nat
        } else {
            0nat
        }
    }
}

/// The error of the first record message that fails extraction.
pub open spec fn first_record_error(messages: Seq<Message>) -> Option<ParseError>
    decreases messages.len(),
{
    if messages.len() == 0 {
        None
    } else if messages[0].kind == MessageKind::Record && record_of(messages[0].fields@) is Err {
        Some(record_of(messages[0].fields@)->Err_0)
    } else {
        first_record_error(messages.drop_first())
    }
}

/// The device serial number: that of the first file-identity message, or
/// zero where there is no such message or it carries no usable number.
pub open spec fn serial_in(messages: Seq<Message>) -> i64 {
    match first_of_kind(messages, MessageKind::FileId) {
        Some(m) => number_or_zero(m.fields@, FieldName::SerialNumber),
        None => 0,
    }
}

/// No message is both a lap and a sample, so the two counts of malformed
/// items together never exceed the number of messages.
pub proof fn lemma_malformed_bounded(messages: Seq<Message>)
    ensures
        malformed_laps(messages) + malformed_records(messages) <= messages.len(),
    decreases messages.len(),
{
    if messages.len() > 0 {
        lemma_malformed_bounded(messages.drop_last());
    }
}

/// Finds the first message of a kind.
pub fn find_message<'a>(data: &'a Vec<Message>, kind: MessageKind) -> (found: Option<&'a Message>)
    ensures
        match found {
            Some(m) => first_of_kind(data@, kind) == Some(*m),
            None => first_of_kind(data@, kind) is None,
        },
{
    let mut i: usize = 0;
    assert(data@.skip(0) =~= data@);
    while i < data.len()
        invariant
            i <= data.len(),
            first_of_kind(data@, kind) == first_of_kind(data@.skip(i as int), kind),
        decreases data.len() - i,
    {
        assert(data@.skip(i as int).drop_first() =~= data@.skip(i as int + 1));
        if data[i].kind == kind {
            return Some(&data[i]);
        }
        i = i + 1;
    }
    None
}

/// Collects the laps in source order. A lap message that fails extraction is
/// left out and counted under [`Malformed::Skip`]; under [`Malformed::Abort`]
/// the first such message ends the collection with its error.
pub fn get_laps_data(data: &Vec<Message>, on_malformed: Malformed) -> (collected: Result<
    (Vec<Lap>, usize),
    ParseError,
>)
    ensures
        match collected {
            Ok((laps, skipped)) => {
                &&& laps@ == laps_in(data@)
                &&& skipped == malformed_laps(data@)
                &&& on_malformed == Malformed::Abort ==> first_lap_error(data@) is None
            },
            Err(e) => on_malformed == Malformed::Abort && first_lap_error(data@) == Some(e),
        },
{
    let mut laps: Vec<Lap> = Vec::new();
    let mut skipped: usize = 0;
    let mut i: usize = 0;
    assert(data@.skip(0) =~= data@);
    assert(data@.take(0) =~= Seq::<Message>::empty());
    while i < data.len()
        invariant
            i <= data.len(),
            laps@ == laps_in(data@.take(i as int)),
            skipped == malformed_laps(data@.take(i as int)),
            skipped <= i,
            on_malformed == Malformed::Abort ==> first_lap_error(data@) == first_lap_error(
                data@.skip(i as int),
            ),
        decreases data.len() - i,
    {
        assert(data@.skip(i as int).drop_first() =~= data@.skip(i as int + 1));
        assert(data@.take(i as int + 1).drop_last() =~= data@.take(i as int));
        if data[i].kind == MessageKind::Lap {
            match Lap::from_iter(&data[i].fields) {
                Ok(lap) => {
                    laps.push(lap);
                },
                Err(e) => {
                    if on_malformed == Malformed::Abort {
                        return Err(e);
                    }
                    skipped = skipped + 1;
                },
            }
        }
        i = i + 1;
    }
    assert(data@.take(i as int) =~= data@);
    assert(data@.skip(i as int) =~= Seq::<Message>::empty());
    Ok((laps, skipped))
}

/// Collects the samples in source order, every one of them. A record message
/// that fails extraction is left out and counted under [`Malformed::Skip`];
/// under [`Malformed::Abort`] the first such message ends the collection with
/// its error.
pub fn get_record_data(data: &Vec<Message>, on_malformed: Malformed) -> (collected: Result<
    (Vec<Record>, usize),
    ParseError,
>)
    ensures
        match collected {
            Ok((records, skipped)) => {
                &&& records@ == records_in(data@)
                &&& skipped == malformed_records(data@)
                &&& on_malformed == Malformed::Abort ==> first_record_error(data@) is None
            },
            Err(e) => on_malformed == Malformed::Abort && first_record_error(data@) == Some(e),
        },
{
    let mut records: Vec<Record> = Vec::new();
    let mut skipped: usize = 0;
    let mut i: usize = 0;
    assert(data@.skip(0) =~= data@);
    assert(data@.take(0) =~= Seq::<Message>::empty());
    while i < data.len()
        invariant
            i <= data.len(),
            records@ == records_in(data@.take(i as int)),
            skipped == malformed_records(data@.take(i as int)),
            skipped <= i,
            on_malformed == Malformed::Abort ==> first_record_error(data@) == first_record_error(
                data@.skip(i as int),
            ),
        decreases data.len() - i,
    {
        assert(data@.skip(i as int).drop_first() =~= data@.skip(i as int + 1));
        assert(data@.take(i as int + 1).drop_last() =~= data@.take(i as int));
        if data[i].kind == MessageKind::Record {
            match Record::from_iter(&data[i].fields) {
                Ok(record) => {
                    records.push(record);
                },
                Err(e) => {
                    if on_malformed == Malformed::Abort {
                        return Err(e);
                    }
                    skipped = skipped + 1;
                },
            }
        }
        i = i + 1;
    }
    assert(data@.take(i as int) =~= data@);
    assert(data@.skip(i as int) =~= Seq::<Message>::empty());
    Ok((records, skipped))
}

/// Reads the device serial number off the first file-identity message,
/// settling for zero where it cannot be had.
pub fn get_file_serial_num(data: &Vec<Message>) -> (serial: i64)
    ensures
        serial == serial_in(data@),
{
    match find_message(data, MessageKind::FileId) {
        Some(file_data) => get_number_value(&file_data.fields, FieldName::SerialNumber),
        None => 0,
    }
}

/// Which of the samples an assembled activity keeps.
#[derive(Clone, Copy, Debug, PartialEq, Eq, Structural)]
pub enum Sampling {
    /// Every sample.
    Full,
    /// The first sample and then every one that stands a whole number of
    /// strides after it. A stride of zero or one keeps every sample.
    Every(usize),
}

impl Default for Sampling {
    /// Every sample.
    fn default() -> (sampling: Sampling)
        ensures
            sampling == Sampling::Full,
    {
        Sampling::Full
    }
}

/// The samples that a sampling keeps, in order.
pub open spec fn thinned(records: Seq<Record>, sampling: Sampling) -> Seq<Record> {
    match sampling {
        Sampling::Full => records,
        Sampling::Every(stride) => if stride <= 1 {
            records
        } else {
            Seq::new(
                ((records.len() + stride - 1) / (stride as int)) as nat,
                |k: int| records[k * stride],
            )
        },
    }
}

/// Thins the samples out as the sampling says.
pub fn thin(records: Vec<Record>, sampling: Sampling) -> (kept: Vec<Record>)
    ensures
        kept@ == thinned(records@, sampling),
{
    let stride: usize = match sampling {
        Sampling::Full => 1,
        Sampling::Every(stride) => stride,
    };
    if stride <= 1 {
        return records;
    }
    let count: usize = records.len();
    let mut kept: Vec<Record> = Vec::new();
    let mut at: usize = 0;
    assert(0 == 0 * stride) by (nonlinear_arith);
    while at < count
        invariant
            stride > 1,
            count == records@.len(),
            at == kept@.len() * stride || (at == count && count <= kept@.len() * stride),
            kept@.len() > 0 ==> (kept@.len() - 1) * stride < count,
            forall|k: int| 0 <= k < kept@.len() ==> kept@[k] == records@[k * stride],
        decreases count - at,
    {
        assert(at == kept@.len() * stride);
        kept.push(records[at]);
        assert((kept@.len() - 1) * stride == at) by (nonlinear_arith)
            requires
                at == (kept@.len() - 1) * stride,
        ;
        if count - at <= stride {
            assert(count <= kept@.len() * stride) by (nonlinear_arith)
                requires
                    count - at <= stride,
                    at == (kept@.len() - 1) * stride,
            ;
            at = count;
        } else {
            assert(at + stride == kept@.len() * stride) by (nonlinear_arith)
                requires
                    at == (kept@.len() - 1) * stride,
            ;
            at = at + stride;
        }
    }
    proof {
        let n = kept@.len() as int;
        let wanted = (count + stride - 1) / (stride as int);
        assert(n == wanted) by (nonlinear_arith)
            requires
                stride > 1,
                count >= 0,
                n >= 0,
                count <= n * stride,
                n > 0 ==> (n - 1) * stride < count,
                wanted == (count + stride - 1) / (stride as int),
        ;
        assert(kept@ =~= thinned(records@, sampling));
    }
    kept
}

/// An assembled activity together with the number of lap and sample messages
/// that were left out of it.
#[derive(Clone, Debug, PartialEq, Eq)]
pub struct Assembled {
    pub session: Session,
    pub skipped: usize,
}

/// What a message stream assembles to, and how many items are left out.
///
/// The first session-level message gives the activity; without one there is
/// nothing to assemble, and an error in it is fatal. The serial number, the
/// laps and the samples are then attached. Under [`Malformed::Abort`] a lap
/// that fails extraction is reported before a sample that does. Of the
/// samples that extract cleanly the sampling decides which are kept; a sample
/// that it passes over is not counted as left out.
pub open spec fn assembled(
    messages: Seq<Message>,
    on_malformed: Malformed,
    sampling: Sampling,
) -> Result<(SessionView, nat), ParseError> {
    match first_of_kind(messages, MessageKind::Session) {
        None => Err(ParseError::NoSessionMessage),
        Some(m) => match session_of(m.fields@) {
            Err(e) => Err(e),
            Ok(s) => if on_malformed == Malformed::Abort && first_lap_error(messages) is Some {
                Err(first_lap_error(messages)->Some_0)
            } else if on_malformed == Malformed::Abort && first_record_error(messages) is Some {
                Err(first_record_error(messages)->Some_0)
            } else {
                Ok(
                    (
                        SessionView {
                            serial_num: serial_in(messages),
                            laps: laps_in(messages),
                            records: thinned(records_in(messages), sampling),
                            ..s
                        },
                        malformed_laps(messages) + malformed_records(messages),
                    ),
                )
            },
        },
    }
}

/// Assembles one activity from the messages of one file.
pub fn assemble(data: &Vec<Message>, on_malformed: Malformed, sampling: Sampling) -> (outcome:
    Result<Assembled, ParseError>)
    ensures
        match outcome {
            Ok(a) => assembled(data@, on_malformed, sampling) == Ok::<
                (SessionView, nat),
                ParseError,
            >((a.session@, a.skipped as nat)),
            Err(e) => assembled(data@, on_malformed, sampling) == Err::<
                (SessionView, nat),
                ParseError,
            >(e),
        },
{
    let session_data = match find_message(data, MessageKind::Session) {
        Some(m) => m,
        None => {
            return Err(ParseError::NoSessionMessage);
        },
    };
    let mut parsed_data = match Session::from_iter(&session_data.fields) {
        Ok(s) => s,
        Err(e) => {
            return Err(e);
        },
    };
    let (laps, skipped_laps) = match get_laps_data(data, on_malformed) {
        Ok(found) => found,
        Err(e) => {
            return Err(e);
        },
    };
    let (records, skipped_records) = match get_record_data(data, on_malformed) {
        Ok(found) => found,
        Err(e) => {
            return Err(e);
        },
    };
    let count: usize = data.len();
    assert(skipped_laps + skipped_records <= count) by {
        lemma_malformed_bounded(data@);
    }
    parsed_data.serial_num = get_file_serial_num(data);
    parsed_data.laps = laps;
    parsed_data.records = thin(records, sampling);
    Ok(Assembled { session: parsed_data, skipped: skipped_laps + skipped_records })
}

/// Assembles one activity with every sample, leaving out whatever lap or
/// sample fails extraction.
pub fn get_session_data(data: &Vec<Message>) -> (session: Result<Session, ParseError>)
    ensures
        match session {
            Ok(s) => {
                &&& assembled(data@, Malformed::Skip, Sampling::Full) is Ok
                &&& assembled(data@, Malformed::Skip, Sampling::Full)->Ok_0.0 == s@
            },
            Err(e) => assembled(data@, Malformed::Skip, Sampling::Full) == Err::<(SessionView, nat), ParseError>(
                e,
            ),
        },
{
    match assemble(data, Malformed::Skip, Sampling::Full) {
        Ok(a) => Ok(a.session),
        Err(e) => Err(e),
    }
}

/// Assembles the activity of the file at `path` from its decoded messages,
/// after making sure that the path names a workout recording.
pub fn init(path: &String, data: &Vec<Message>) -> (session: Result<Session, ParseError>)
    ensures
        match session {
            Ok(s) => {
                &&& has_fit_extension(path@)
                &&& assembled(data@, Malformed::Skip, Sampling::Full) is Ok
                &&& assembled(data@, Malformed::Skip, Sampling::Full)->Ok_0.0 == s@
            },
            Err(e) => if has_fit_extension(path@) {
                assembled(data@, Malformed::Skip, Sampling::Full) == Err::<(SessionView, nat), ParseError>(e)
            } else {
                e == ParseError::NotFitFile
            },
        },
{
    if !is_fit_file(path) {
        return Err(ParseError::NotFitFile);
    }
    get_session_data(data)
}

impl ParseError {
    /// What a report says of the error.
    pub open spec fn text(self) -> Seq<char> {
        match self {
            ParseError::NotFitFile => "Not a fit file"@,
            ParseError::NoSessionMessage => "No session message in the file"@,
            ParseError::MissingField(name) => "Missing field "@ + name.name(),
            ParseError::TypeConversion(name) => "Unusable value in field "@ + name.name(),
        }
    }

    /// Writes what a report says of the error.
    pub fn message(&self) -> (message: String)
        ensures
            message@ == self.text(),
    {
        match self {
            ParseError::NotFitFile => "Not a fit file".to_owned(),
            ParseError::NoSessionMessage => "No session message in the file".to_owned(),
            ParseError::MissingField(name) => {
                let mut message: String = "Missing field ".to_owned();
                message.append(name.as_str());
                message
            },
            ParseError::TypeConversion(name) => {
                let mut message: String = "Unusable value in field ".to_owned();
                message.append(name.as_str());
                message
            },
        }
    }
}

/// An optional measure that is absent reads as zero.
pub proof fn lemma_absent_measure_is_zero(fields: Seq<Field>, name: FieldName)
    requires
        lookup(fields, name.name()) is None,
    ensures
        number_or_zero(fields, name) == 0,
        decimal_or_zero(fields, name) == 0,
{
}

/// A sample needs its timestamp and nothing else: whether it can be built
/// does not depend on its optional measures, and each of them that is absent
/// reads as zero.
pub proof fn lemma_sample_needs_timestamp_only(fields: Seq<Field>)
    ensures
        record_of(fields) is Ok <==> required_number(fields, FieldName::Timestamp) is Ok,
        record_of(fields) is Ok && lookup(fields, FieldName::Distance.name()) is None
            ==> record_of(fields)->Ok_0.distance == 0,
        record_of(fields) is Ok && lookup(fields, FieldName::Power.name()) is None ==> record_of(
            fields,
        )->Ok_0.power == 0,
        record_of(fields) is Ok && lookup(fields, FieldName::HeartRate.name()) is None
            ==> record_of(fields)->Ok_0.heart_rate == 0,
{
}

/// A lap needs its start time and nothing else.
pub proof fn lemma_lap_needs_start_time_only(fields: Seq<Field>)
    ensures
        lap_of(fields) is Ok <==> required_number(fields, FieldName::StartTime) is Ok,
{
}

/// An activity needs its four mandatory fields and nothing else.
pub proof fn lemma_session_needs_mandatory_only(fields: Seq<Field>)
    ensures
        session_of(fields) is Ok <==> {
            &&& required_number(fields, FieldName::StartTime) is Ok
            &&& required_decimal(fields, FieldName::TotalElapsedTime) is Ok
            &&& required_text(fields, FieldName::Sport) is Ok
            &&& required_text(fields, FieldName::SubSport) is Ok
        },
{
}

/// Without a start time on the session-level message no activity is
/// assembled, whatever else the messages hold and whatever the policy.
pub proof fn lemma_missing_start_time_is_fatal(
    messages: Seq<Message>,
    on_malformed: Malformed,
    sampling: Sampling,
)
    requires
        first_of_kind(messages, MessageKind::Session) is Some,
        lookup(
            first_of_kind(messages, MessageKind::Session)->Some_0.fields@,
            FieldName::StartTime.name(),
        ) is None,
    ensures
        assembled(messages, on_malformed, sampling) == Err::<(SessionView, nat), ParseError>(
            ParseError::MissingField(FieldName::StartTime),
        ),
{
}

/// Without a session-level message no activity is assembled.
pub proof fn lemma_no_session_message_is_fatal(
    messages: Seq<Message>,
    on_malformed: Malformed,
    sampling: Sampling,
)
    requires
        first_of_kind(messages, MessageKind::Session) is None,
    ensures
        assembled(messages, on_malformed, sampling) == Err::<(SessionView, nat), ParseError>(
            ParseError::NoSessionMessage,
        ),
{
}

} // verus!
