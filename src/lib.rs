//! Reads the text printed by a hardware-monitoring tool into sections of named
//! measurements, and holds the snapshot that each refresh replaces.
pub mod entry;
pub mod laws;
pub mod parser;
pub mod snapshot;
pub mod text;
pub mod viewer;

pub use entry::{parse_entry, SensorEntry};
pub use parser::{parse_sections, SensorSection};
pub use snapshot::{parse, read_sensor_data, SensorError};
pub use viewer::SensorViewer;
