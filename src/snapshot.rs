use vstd::prelude::*;

use crate::parser::{parse_model, parse_sections, sections_view, SectionModel, SensorSection};

verus! {

/// Why no sections can be shown.
#[derive(Debug, Clone)]
pub enum SensorError {
    /// The sensor tool could not be run, or it failed; the text says why.
    SourceUnavailable(String),
    /// The tool ran, but its output holds no section.
    NoDataFound,
}

pub enum ErrorModel {
    SourceUnavailable(Seq<char>),
    NoDataFound,
}

impl View for SensorError {
    type V = ErrorModel;

    open spec fn view(&self) -> ErrorModel {
        match self {
            SensorError::SourceUnavailable(m) => ErrorModel::SourceUnavailable(m@),
            SensorError::NoDataFound => ErrorModel::NoDataFound,
        }
    }
}

pub open spec fn no_data_text() -> Seq<char> {
    seq!['N', 'o', ' ', 's', 'e', 'n', 's', 'o', 'r', ' ', 'd', 'a', 't', 'a', ' ', 'f', 'o', 'u', 'n', 'd']
}

pub open spec fn message_of(e: ErrorModel) -> Seq<char> {
    match e {
        ErrorModel::SourceUnavailable(m) => m,
        ErrorModel::NoDataFound => no_data_text(),
    }
}

impl SensorError {
    /// The text shown in place of the sections.
    pub fn message(&self) -> (r: String)
        ensures
            r@ == message_of(self@),
    {
        match self {
            SensorError::SourceUnavailable(m) => m.clone(),
            SensorError::NoDataFound => {
                let r = String::from_str("No sensor data found");
                proof {
                    reveal_strlit("No sensor data found");
                    assert(r@ =~= no_data_text());
                }
                r
            },
        }
    }
}

/// The model of what is held at any time: the sections, or why there are none.
pub open spec fn snapshot_view(r: Result<Vec<SensorSection>, SensorError>) -> Result<
    Seq<SectionModel>,
    ErrorModel,
> {
    match r {
        Ok(v) => Ok(sections_view(v@)),
        Err(e) => Err(e@),
    }
}

/// What the text of the sensor tool parses to.
pub open spec fn parse_result(t: Seq<char>) -> Result<Seq<SectionModel>, ErrorModel> {
    match parse_model(t) {
        Some(s) => Ok(s),
        None => Err(ErrorModel::NoDataFound),
    }
}

/// The snapshot made of one run of the sensor tool: its output, or why it failed.
pub open spec fn reading_result(reading: Result<Seq<char>, Seq<char>>) -> Result<
    Seq<SectionModel>,
    ErrorModel,
> {
    match reading {
        Ok(t) => parse_result(t),
        Err(m) => Err(ErrorModel::SourceUnavailable(m)),
    }
}

pub open spec fn reading_view(reading: Result<String, String>) -> Result<Seq<char>, Seq<char>> {
    match reading {
        Ok(t) => Ok(t@),
        Err(m) => Err(m@),
    }
}

/// Reads the output of the sensor tool into its sections, in the order in which they
/// appear; `NoDataFound` where it holds no section header.
pub fn parse(text: &str) -> (r: Result<Vec<SensorSection>, SensorError>)
    ensures
        snapshot_view(r) == parse_result(text@),
        r is Err <==> parse_model(text@) is None,
        r matches Err(e) ==> e is NoDataFound,
{
    match parse_sections(text) {
        Some(v) => Ok(v),
        None => Err(SensorError::NoDataFound),
    }
}

/// Turns one run of the sensor tool into a snapshot: its output is parsed, and a
/// failure to run it is reported as `SourceUnavailable` with its text.
pub fn read_sensor_data(reading: Result<String, String>) -> (r: Result<
    Vec<SensorSection>,
    SensorError,
>)
    ensures
        snapshot_view(r) == reading_result(reading_view(reading)),
{
    match reading {
        Ok(t) => parse(t.as_str()),
        Err(m) => Err(SensorError::SourceUnavailable(m)),
    }
}

} // verus!
