use vstd::prelude::*;

use crate::parser::{SectionModel, SensorSection};
use crate::snapshot::{
    read_sensor_data, reading_result, reading_view, snapshot_view, ErrorModel, SensorError,
};

verus! {

/// The next snapshot after a refresh: the new reading replaces the old snapshot
/// whole, whatever either of them holds.
pub open spec fn next_snapshot(
    prev: Result<Seq<SectionModel>, ErrorModel>,
    reading: Result<Seq<char>, Seq<char>>,
) -> Result<Seq<SectionModel>, ErrorModel> {
    reading_result(reading)
}

/// Holds the one current snapshot: the sections last read, or why there are none.
pub struct SensorViewer {
    pub sensor_data: Result<Vec<SensorSection>, SensorError>,
}

impl View for SensorViewer {
    type V = Result<Seq<SectionModel>, ErrorModel>;

    open spec fn view(&self) -> Result<Seq<SectionModel>, ErrorModel> {
        snapshot_view(self.sensor_data)
    }
}

impl SensorViewer {
    /// Starts with the snapshot of a first run of the sensor tool.
    pub fn new(reading: Result<String, String>) -> (r: SensorViewer)
        ensures
            r@ == reading_result(reading_view(reading)),
    {
        SensorViewer { sensor_data: read_sensor_data(reading) }
    }

    /// One refresh: the snapshot of a new run of the sensor tool replaces the one held.
    pub fn update(&mut self, reading: Result<String, String>)
        ensures
            final(self)@ == next_snapshot(old(self)@, reading_view(reading)),
    {
        self.sensor_data = read_sensor_data(reading);
    }

    /// The title of the window.
    pub fn title(&self) -> (r: String)
        ensures
            r@ == seq!['S', 'e', 'n', 's', 'o', 'r', 'y'],
    {
        let r = String::from_str("Sensory");
        proof {
            reveal_strlit("Sensory");
            assert(r@ =~= seq!['S', 'e', 'n', 's', 'o', 'r', 'y']);
        }
        r
    }

    /// The snapshot held now.
    pub fn sensor_data(&self) -> (r: &Result<Vec<SensorSection>, SensorError>)
        ensures
            snapshot_view(*r) == self@,
    {
        &self.sensor_data
    }
}

} // verus!
