use vsr::dashboard::{DriveMode, MetricWindow, VehicleField, VehicleInternal, VehicleSection};

#[test]
fn default_mode_is_park() {
    assert_eq!(DriveMode::default(), DriveMode::Park);
}

#[test]
fn mode_labels() {
    assert_eq!(DriveMode::Park.label(), "Park");
    assert_eq!(DriveMode::Drive.label(), "Drive");
    assert_eq!(DriveMode::Reverse.label(), "Reverse");
}

#[test]
fn fresh_state_greets() {
    let state = VehicleInternal::new();
    assert_eq!(state.drive_mode, DriveMode::Park);
    assert_eq!(state.logs.len(), 1);
    assert_eq!(state.logs.front().unwrap(), "telemetry online");
}

#[test]
fn set_drive_mode_records_the_change() {
    let mut state = VehicleInternal::new();
    let returned = state.set_drive_mode(DriveMode::Drive);
    assert_eq!(returned, DriveMode::Drive);
    assert_eq!(state.drive_mode, DriveMode::Drive);
    assert_eq!(state.logs.len(), 2);
    assert_eq!(state.logs.front().unwrap(), "drive -> Drive");
    assert_eq!(state.logs.back().unwrap(), "telemetry online");
}

#[test]
fn log_ring_keeps_the_newest_eighty_lines() {
    let mut state = VehicleInternal::new();
    for i in 0..85 {
        state.push_log(format!("e{}", i));
    }
    assert_eq!(state.logs.len(), 80);
    assert_eq!(state.logs.front().unwrap(), "e84");
    // The greeting and e0..e4 have been pushed out the back.
    assert_eq!(state.logs.back().unwrap(), "e5");
}

#[test]
fn push_log_keeps_the_drive_mode() {
    let mut state = VehicleInternal::new();
    state.set_drive_mode(DriveMode::Reverse);
    state.push_log("extra".to_string());
    assert_eq!(state.drive_mode, DriveMode::Reverse);
    assert_eq!(state.logs.front().unwrap(), "extra");
}

#[test]
fn vehicle_field_new_copies_its_parts() {
    let with_unit = VehicleField::new("Pack Voltage", "780".to_string(), Some("V"));
    assert_eq!(with_unit.label, "Pack Voltage");
    assert_eq!(with_unit.value, "780");
    assert_eq!(with_unit.unit.as_deref(), Some("V"));

    let without_unit = VehicleField::new("Contactor State", "Closed".to_string(), None);
    assert_eq!(without_unit.label, "Contactor State");
    assert_eq!(without_unit.value, "Closed");
    assert!(without_unit.unit.is_none());
}

#[test]
fn vehicle_section_new_keeps_its_fields() {
    let fields = vec![
        VehicleField::new("State of Charge", "79.0".to_string(), Some("%")),
        VehicleField::new("Heat Pump Mode", "Heating".to_string(), None),
    ];
    let section = VehicleSection::new("battery-pack", "Battery Pack", fields);
    assert_eq!(section.id, "battery-pack");
    assert_eq!(section.title, "Battery Pack");
    assert_eq!(section.fields.len(), 2);
    assert_eq!(section.fields[0].label, "State of Charge");
    assert_eq!(section.fields[1].label, "Heat Pump Mode");
}

#[test]
fn metric_window_new_copies_its_parts() {
    let window = MetricWindow::new("5m", "26.4".to_string());
    assert_eq!(window.label, "5m");
    assert_eq!(window.value, "26.4");
}
