use sensory::{read_sensor_data, SensorError, SensorViewer};

#[test]
fn failed_run_is_source_unavailable() {
    match read_sensor_data(Err("sensors command failed: no sensors".to_string())) {
        Err(SensorError::SourceUnavailable(m)) => assert_eq!(m, "sensors command failed: no sensors"),
        other => panic!("unexpected {:?}", other),
    }
}

#[test]
fn source_unavailable_message_is_its_text() {
    let e = SensorError::SourceUnavailable("boom".to_string());
    assert_eq!(e.message(), "boom");
}

#[test]
fn empty_output_is_no_data() {
    assert!(matches!(read_sensor_data(Ok(String::new())), Err(SensorError::NoDataFound)));
}

#[test]
fn new_viewer_holds_first_reading() {
    let v = SensorViewer::new(Ok("chip\ntemp1: +30.0°C\n".to_string()));
    match v.sensor_data() {
        Ok(s) => {
            assert_eq!(s.len(), 1);
            assert_eq!(s[0].entries[0].value, "+30.0°C");
        },
        Err(e) => panic!("unexpected {:?}", e),
    }
}

#[test]
fn failed_refresh_replaces_sections() {
    let mut v = SensorViewer::new(Ok("chip\ntemp1: +30.0°C\n".to_string()));
    assert!(v.sensor_data.is_ok());
    v.update(Err("Failed to execute sensors command: not found".to_string()));
    match &v.sensor_data {
        Err(SensorError::SourceUnavailable(m)) => {
            assert_eq!(m, "Failed to execute sensors command: not found")
        },
        other => panic!("unexpected {:?}", other),
    }
}

#[test]
fn refresh_replaces_error_with_sections() {
    let mut v = SensorViewer::new(Err("down".to_string()));
    v.update(Ok("a\nx: 1 V\nb\n".to_string()));
    match v.sensor_data() {
        Ok(s) => {
            assert_eq!(s.len(), 2);
            assert_eq!(s[1].name, "b");
        },
        Err(e) => panic!("unexpected {:?}", e),
    }
    v.update(Ok("   \n".to_string()));
    assert!(matches!(v.sensor_data(), Err(SensorError::NoDataFound)));
}

#[test]
fn window_title() {
    let v = SensorViewer::new(Err("x".to_string()));
    assert_eq!(v.title(), "Sensory");
}
