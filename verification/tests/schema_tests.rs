use vsr::schema::{resolve_width, vsr_subtype, vsr_type, Field, FieldType};

fn field(name: &str, ty: FieldType, unit: &str, description: &str) -> Field {
    Field {
        name: name.to_string(),
        ty,
        unit: unit.to_string(),
        description: description.to_string(),
    }
}

fn subtype(name: &str, fields: Vec<Field>) -> vsr_subtype {
    vsr_subtype { name: name.to_string(), fields }
}

#[test]
fn widths_follow_the_table() {
    assert_eq!(resolve_width(FieldType::U8), Some(1));
    assert_eq!(resolve_width(FieldType::I8), Some(1));
    assert_eq!(resolve_width(FieldType::U16), Some(2));
    assert_eq!(resolve_width(FieldType::I16), Some(2));
    assert_eq!(resolve_width(FieldType::U32), Some(4));
    assert_eq!(resolve_width(FieldType::I32), Some(4));
    assert_eq!(resolve_width(FieldType::U64), Some(8));
    assert_eq!(resolve_width(FieldType::I64), Some(8));
    assert_eq!(resolve_width(FieldType::F32), Some(4));
    assert_eq!(resolve_width(FieldType::F64), Some(8));
    assert_eq!(resolve_width(FieldType::Boolean), None);
}

#[test]
fn motor_power_example_size_is_eight() {
    let schema = vsr_type {
        version: 1,
        subtypes: vec![subtype(
            "motor_power",
            vec![
                field("measured_dc_voltage_v", FieldType::F32, "V", "DC Bus Voltage"),
                field("motor_current_limit_arms", FieldType::F32, "A", "Motor Current Limit"),
            ],
        )],
    };
    assert_eq!(schema.get_size(), Some(8));
}

#[test]
fn size_sums_every_subtype_in_order() {
    let schema = vsr_type {
        version: 3,
        subtypes: vec![
            subtype(
                "motor_safety",
                vec![
                    field("protection_code", FieldType::U8, "", "Protection Code"),
                    field("safety_error_code", FieldType::U8, "", "Safety Error Code"),
                    field("motor_temp", FieldType::I16, "F", "Motor Temperature"),
                ],
            ),
            subtype(
                "motor_control",
                vec![
                    field("current_reference", FieldType::I32, "Arms", "Current Reference"),
                    field("discharge_limit_pct", FieldType::U8, "%", "Discharge Limit"),
                ],
            ),
            subtype("motor_error", vec![field("motor_state", FieldType::U32, "", "Motor State")]),
        ],
    };
    // 1 + 1 + 2, plus 4 + 1, plus 4.
    assert_eq!(schema.get_size(), Some(13));
}

#[test]
fn every_supported_type_contributes_its_width() {
    let schema = vsr_type {
        version: 2,
        subtypes: vec![subtype(
            "everything",
            vec![
                field("a", FieldType::U8, "", "A"),
                field("b", FieldType::I8, "", "B"),
                field("c", FieldType::U16, "", "C"),
                field("d", FieldType::I16, "", "D"),
                field("e", FieldType::U32, "", "E"),
                field("f", FieldType::I32, "", "F"),
                field("g", FieldType::U64, "", "G"),
                field("h", FieldType::I64, "", "H"),
                field("i", FieldType::F32, "", "I"),
                field("j", FieldType::F64, "", "J"),
            ],
        )],
    };
    // 1 + 1 + 2 + 2 + 4 + 4 + 8 + 8 + 4 + 8.
    assert_eq!(schema.get_size(), Some(42));
}

#[test]
fn empty_schema_has_size_zero() {
    let schema = vsr_type { version: 0, subtypes: vec![] };
    assert_eq!(schema.get_size(), Some(0));
}

#[test]
fn size_is_independent_of_unit_and_description() {
    let a = vsr_type {
        version: 1,
        subtypes: vec![subtype(
            "pedal",
            vec![
                field("pedal_supply_voltage", FieldType::F32, "mV", "Pedal Supply Voltage"),
                field("tx_value", FieldType::I32, "", "Transmit Value (CAN)"),
            ],
        )],
    };
    let b = vsr_type {
        version: 1,
        subtypes: vec![subtype(
            "pedal",
            vec![
                field("pedal_supply_voltage", FieldType::F32, "", "renamed doc text"),
                field("tx_value", FieldType::I32, "counts", ""),
            ],
        )],
    };
    assert_eq!(a.get_size(), b.get_size());
    assert_eq!(a.get_size(), Some(8));
}

#[test]
fn one_unresolved_field_makes_the_whole_size_unknown() {
    let schema = vsr_type {
        version: 1,
        subtypes: vec![
            subtype("motor_power", vec![field("measured_dc_voltage_v", FieldType::F32, "V", "DC Bus Voltage")]),
            subtype(
                "pedal",
                vec![
                    field("pedal_position_pct", FieldType::F32, "%", "Pedal Position"),
                    field("use_pedal", FieldType::Boolean, "", "Use Pedal Flag"),
                ],
            ),
        ],
    };
    // Not a partial sum over the fields that do resolve.
    assert_eq!(schema.get_size(), None);
}
