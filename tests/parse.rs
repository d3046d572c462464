use sensory::{parse, parse_entry, parse_sections, SensorEntry, SensorError, SensorSection};

fn sections(text: &str) -> Vec<SensorSection> {
    match parse(text) {
        Ok(v) => v,
        Err(e) => panic!("expected sections, got {:?}", e),
    }
}

fn entry(line: &str) -> Option<SensorEntry> {
    let chars: Vec<char> = line.chars().collect();
    parse_entry(&chars)
}

fn assert_entry(e: &SensorEntry, key: &str, value: &str, info: Option<&str>) {
    assert_eq!(e.key, key);
    assert_eq!(e.value, value);
    assert_eq!(e.additional_info.as_deref(), info);
}

#[test]
fn empty_text_has_no_data() {
    assert!(matches!(parse(""), Err(SensorError::NoDataFound)));
}

#[test]
fn blank_lines_have_no_data() {
    assert!(matches!(parse("   \n\t\n\r\n  "), Err(SensorError::NoDataFound)));
    assert!(parse_sections("\n\n").is_none());
}

#[test]
fn lines_before_any_header_give_no_data() {
    assert!(matches!(parse("Adapter: ISA adapter\ntemp1: +30.0°C\n"), Err(SensorError::NoDataFound)));
}

#[test]
fn header_and_one_entry() {
    let v = sections("chip\nfan1: 1200 RPM\n");
    assert_eq!(v.len(), 1);
    assert_eq!(v[0].name, "chip");
    assert_eq!(v[0].adapter, "");
    assert_eq!(v[0].entries.len(), 1);
    assert_entry(&v[0].entries[0], "fan1", "1200 RPM", None);
}

#[test]
fn same_text_parses_the_same_twice() {
    let text = "coretemp-isa-0000\nAdapter: ISA adapter\nCore 0:  +45.0°C  (high = +80.0°C)\n";
    let a = sections(text);
    let b = sections(text);
    assert_eq!(format!("{:?}", a), format!("{:?}", b));
}

#[test]
fn sections_and_entries_keep_text_order() {
    let v = sections("a\nx1: 1 V\nx2: 2 V\nb\ny1: 3 W\nc\n");
    let names: Vec<&str> = v.iter().map(|s| s.name.as_str()).collect();
    assert_eq!(names, vec!["a", "b", "c"]);
    assert_entry(&v[0].entries[0], "x1", "1 V", None);
    assert_entry(&v[0].entries[1], "x2", "2 V", None);
    assert_entry(&v[1].entries[0], "y1", "3 W", None);
    assert!(v[2].entries.is_empty());
}

#[test]
fn unmatched_line_is_dropped() {
    let v = sections("chip\ntemp1: +45.0°C garbage\ntemp2: +46.0°C\nintrusion0: ALARM\ntemp3: +47.0°F\nfan1: 900 RPM\n");
    assert_eq!(v.len(), 1);
    assert_eq!(v[0].entries.len(), 2);
    assert_entry(&v[0].entries[0], "temp2", "+46.0°C", None);
    assert_entry(&v[0].entries[1], "fan1", "900 RPM", None);
}

#[test]
fn last_adapter_line_wins() {
    let v = sections("chip\nAdapter: first bus\n  Adapter:   second bus  \n");
    assert_eq!(v.len(), 1);
    assert_eq!(v[0].adapter, "second bus");
    assert!(v[0].entries.is_empty());
}

#[test]
fn coretemp_example() {
    let text = "coretemp-isa-0000\nAdapter: ISA adapter\nCore 0:       +45.0°C  (high = +80.0°C, crit = +100.0°C)\n";
    let v = sections(text);
    assert_eq!(v.len(), 1);
    assert_eq!(v[0].name, "coretemp-isa-0000");
    assert_eq!(v[0].adapter, "ISA adapter");
    assert_eq!(v[0].entries.len(), 1);
    assert_entry(&v[0].entries[0], "Core 0", "+45.0°C", Some("high = +80.0°C, crit = +100.0°C"));
}

#[test]
fn two_sections_with_blank_line_between() {
    let text = "acpitz-acpi-0\nAdapter: ACPI interface\ntemp1:        +27.8°C\n\nnvme-pci-0100\nAdapter: PCI adapter\nComposite:    +38.9°C  (low  = -273.1°C, high = +84.8°C)\nSensor 1:     +38.9°C\n";
    let v = sections(text);
    assert_eq!(v.len(), 2);
    assert_eq!(v[0].name, "acpitz-acpi-0");
    assert_eq!(v[0].adapter, "ACPI interface");
    assert_eq!(v[0].entries.len(), 1);
    assert_entry(&v[0].entries[0], "temp1", "+27.8°C", None);
    assert_eq!(v[1].name, "nvme-pci-0100");
    assert_eq!(v[1].adapter, "PCI adapter");
    assert_eq!(v[1].entries.len(), 2);
    assert_entry(&v[1].entries[0], "Composite", "+38.9°C", Some("low  = -273.1°C, high = +84.8°C"));
    assert_entry(&v[1].entries[1], "Sensor 1", "+38.9°C", None);
}

#[test]
fn header_after_header_keeps_empty_section() {
    let v = sections("first\nsecond\nin0: 1.20 V\n");
    assert_eq!(v.len(), 2);
    assert!(v[0].entries.is_empty());
    assert_eq!(v[1].entries.len(), 1);
}

#[test]
fn carriage_returns_are_trimmed() {
    let v = sections("chip\r\n  temp1:  +30.0°C  \r\n");
    assert_eq!(v[0].name, "chip");
    assert_entry(&v[0].entries[0], "temp1", "+30.0°C", None);
}

#[test]
fn every_unit_is_accepted() {
    assert_entry(&entry("a: +45.0°C").unwrap(), "a", "+45.0°C", None);
    assert_entry(&entry("b: 1200 RPM").unwrap(), "b", "1200 RPM", None);
    assert_entry(&entry("c: 1.20 V").unwrap(), "c", "1.20 V", None);
    assert_entry(&entry("d: 10.50 W").unwrap(), "d", "10.50 W", None);
    assert_entry(&entry("e: 50%").unwrap(), "e", "50%", None);
    assert_entry(&entry("f: -3 mA").unwrap(), "f", "-3 mA", None);
    assert_entry(&entry("g: 7").unwrap(), "g", "7", None);
    assert_entry(&entry("h: 7.").unwrap(), "h", "7.", None);
}

#[test]
fn lines_that_are_no_entry() {
    assert!(entry("a: 5 K").is_none());
    assert!(entry("a:5 V").is_none());
    assert!(entry(": 5 V").is_none());
    assert!(entry("a: .5 V").is_none());
    assert!(entry("a: +V").is_none());
    assert!(entry("a: 5 ()").is_none());
    assert!(entry("a: 5 V(x)").is_none());
    assert!(entry("no colon here").is_none());
    assert!(entry("").is_none());
}

#[test]
fn key_is_the_shortest_that_fits() {
    assert_entry(&entry("a: b: 5 V").unwrap(), "a: b", "5 V", None);
    assert_entry(&entry("fan: 1: 2").unwrap(), "fan: 1", "2", None);
}

#[test]
fn key_is_trimmed() {
    assert_entry(&entry("Core 0 : 5 V").unwrap(), "Core 0", "5 V", None);
}

#[test]
fn note_without_unit() {
    assert_entry(&entry("x: 5 (a)").unwrap(), "x", "5", Some("a"));
    assert_entry(&entry("x: 5  (a) (b)").unwrap(), "x", "5", Some("a) (b"));
    assert_entry(&entry("x: 5 V\t(ALARM)").unwrap(), "x", "5 V", Some("ALARM"));
}

#[test]
fn no_data_message() {
    match parse("\n") {
        Err(e) => assert_eq!(e.message(), "No sensor data found"),
        Ok(_) => panic!("expected an error"),
    }
}
