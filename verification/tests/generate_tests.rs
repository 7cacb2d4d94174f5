use vsr::generate::GenError;
use vsr::schema::{vsr_subtype, vsr_type, Field, FieldType};

fn field(name: &str, ty: FieldType, unit: &str, description: &str) -> Field {
    Field {
        name: name.to_string(),
        ty,
        unit: unit.to_string(),
        description: description.to_string(),
    }
}

fn subtype(name: &str, fields: Vec<Field>) -> vsr_subtype {
    vsr_subtype { name: name.to_string(), fields }
}

/// The sample schema of the telemetry project, pedal group included.
fn sample_schema() -> vsr_type {
    vsr_type {
        version: 1,
        subtypes: vec![
            subtype(
                "motor_power",
                vec![
                    field("measured_dc_voltage_v", FieldType::F32, "V", "DC Bus Voltage"),
                    field("calculated_dc_current_a", FieldType::F32, "A", "Calculated DC Current"),
                    field("motor_current_limit_arms", FieldType::F32, "A", "Motor Current Limit"),
                ],
            ),
            subtype(
                "motor_speed",
                vec![
                    field("quadrature_current", FieldType::F32, "A", "Quadrature Current (Arms)"),
                    field("direct_current", FieldType::F32, "A", "Direct Current (Arms)"),
                    field("motor_speed", FieldType::I16, "RPM", "Motor Speed"),
                ],
            ),
            subtype(
                "pedal",
                vec![
                    field("pedal_supply_voltage", FieldType::F32, "mV", "Pedal Supply Voltage"),
                    field("pedal_position_pct", FieldType::F32, "%", "Pedal Position"),
                    field("tx_value", FieldType::I32, "", "Transmit Value (CAN)"),
                    field("use_pedal", FieldType::Boolean, "", "Use Pedal Flag"),
                ],
            ),
        ],
    }
}

fn resolvable_schema() -> vsr_type {
    let mut s = sample_schema();
    // Drop the boolean flag so every field resolves.
    s.subtypes[2].fields.pop();
    s
}

#[test]
fn generation_is_deterministic() {
    let schema = resolvable_schema();
    let first = schema.generate().unwrap();
    let second = schema.generate().unwrap();
    assert_eq!(first.header, second.header);
    assert_eq!(first.source, second.source);
}

#[test]
fn boolean_field_aborts_generation_naming_the_field() {
    let schema = sample_schema();
    assert_eq!(schema.get_size(), None);
    match schema.generate() {
        Err(GenError::UnsupportedFieldType { subtype, field }) => {
            assert_eq!(subtype, "pedal");
            assert_eq!(field, "use_pedal");
        },
        other => panic!("expected UnsupportedFieldType, got {:?}", other),
    }
}

#[test]
fn exact_artifacts_for_a_one_field_schema() {
    let schema = vsr_type {
        version: 7,
        subtypes: vec![subtype("a", vec![field("x", FieldType::U8, "", "D")])],
    };
    let code = schema.generate().unwrap();
    let header = "#ifndef VSR_GENERATED_H\n#define VSR_GENERATED_H\n\n#include <stdint.h>\n\n#define VSR_VERSION 7\n\ntypedef struct {\n    uint8_t x; /* D */\n} vsr_a_t;\n\n/* D */\nuint8_t vsr_get_a_x(void);\nvoid vsr_set_a_x(uint8_t value);\n\n#endif\n";
    let source = "#include \"vsr_generated.h\"\n#include <pthread.h>\n\nstatic pthread_mutex_t vsr_a_lock = PTHREAD_MUTEX_INITIALIZER;\nstatic vsr_a_t vsr_a_storage;\n\nuint8_t vsr_get_a_x(void) {\n    pthread_mutex_lock(&vsr_a_lock);\n    uint8_t value = vsr_a_storage.x;\n    pthread_mutex_unlock(&vsr_a_lock);\n    return value;\n}\n\nvoid vsr_set_a_x(uint8_t value) {\n    pthread_mutex_lock(&vsr_a_lock);\n    vsr_a_storage.x = value;\n    pthread_mutex_unlock(&vsr_a_lock);\n}\n\n";
    assert_eq!(code.header, header);
    assert_eq!(code.source, source);
}

#[test]
fn units_are_rendered_after_the_description() {
    let schema = resolvable_schema();
    let code = schema.generate().unwrap();
    assert!(code.header.contains("/* DC Bus Voltage (V) */"));
    // An empty unit leaves the comment bare.
    assert!(code.header.contains("/* Transmit Value (CAN) */"));
}

#[test]
fn version_stamp_is_carried_through_verbatim() {
    let mut schema = resolvable_schema();
    schema.version = 1234567890;
    let code = schema.generate().unwrap();
    assert!(code.header.contains("#define VSR_VERSION 1234567890\n"));
}

#[test]
fn one_lock_and_one_accessor_pair_per_field_for_motor_power() {
    let schema = vsr_type {
        version: 1,
        subtypes: vec![subtype(
            "motor_power",
            vec![
                field("measured_dc_voltage_v", FieldType::F32, "V", "DC Bus Voltage"),
                field("motor_current_limit_arms", FieldType::F32, "A", "Motor Current Limit"),
            ],
        )],
    };
    assert_eq!(schema.get_size(), Some(8));
    let code = schema.generate().unwrap();
    // Exactly one lock for the subtype.
    assert_eq!(code.source.matches("static pthread_mutex_t ").count(), 1);
    assert_eq!(code.source.matches("PTHREAD_MUTEX_INITIALIZER").count(), 1);
    // Exactly one accessor pair per field.
    assert!(code.header.contains("float vsr_get_motor_power_measured_dc_voltage_v(void);"));
    assert!(code.header.contains("void vsr_set_motor_power_measured_dc_voltage_v(float value);"));
    assert!(code.header.contains("float vsr_get_motor_power_motor_current_limit_arms(void);"));
    assert!(code.header.contains("void vsr_set_motor_power_motor_current_limit_arms(float value);"));
    assert_eq!(code.header.matches("vsr_get_").count(), 2);
    assert_eq!(code.header.matches("vsr_set_").count(), 2);
}

#[test]
fn each_subtype_gets_its_own_lock() {
    let schema = resolvable_schema();
    let code = schema.generate().unwrap();
    // One lock per subtype, never one global lock, never one per field.
    assert_eq!(code.source.matches("static pthread_mutex_t ").count(), 3);
    assert!(code.source.contains("static pthread_mutex_t vsr_motor_power_lock"));
    assert!(code.source.contains("static pthread_mutex_t vsr_motor_speed_lock"));
    assert!(code.source.contains("static pthread_mutex_t vsr_pedal_lock"));
    // A motor_power accessor touches the motor_power lock alone.
    let getter_start = code.source.find("float vsr_get_motor_power_measured_dc_voltage_v(void) {").unwrap();
    let getter_end = code.source[getter_start..].find("}\n").unwrap() + getter_start;
    let getter = &code.source[getter_start..getter_end];
    assert!(getter.contains("pthread_mutex_lock(&vsr_motor_power_lock);"));
    assert!(getter.contains("pthread_mutex_unlock(&vsr_motor_power_lock);"));
    assert!(!getter.contains("vsr_motor_speed_lock"));
    assert!(!getter.contains("vsr_pedal_lock"));
}

#[test]
fn duplicate_subtype_name_is_a_conflict() {
    let schema = vsr_type {
        version: 1,
        subtypes: vec![
            subtype("motor_power", vec![field("a", FieldType::U8, "", "A")]),
            subtype("motor_power", vec![field("b", FieldType::U8, "", "B")]),
        ],
    };
    assert_eq!(schema.find_conflict(), Some("motor_power".to_string()));
    match schema.generate() {
        Err(GenError::SchemaConflict { name }) => assert_eq!(name, "motor_power"),
        other => panic!("expected SchemaConflict, got {:?}", other),
    }
}

#[test]
fn duplicate_field_name_within_a_subtype_is_a_conflict() {
    let schema = vsr_type {
        version: 1,
        subtypes: vec![subtype(
            "pedal",
            vec![
                field("tx_value", FieldType::I32, "", "Transmit Value"),
                field("tx_value", FieldType::U8, "", "Transmit Value Again"),
            ],
        )],
    };
    match schema.generate() {
        Err(GenError::SchemaConflict { name }) => assert_eq!(name, "tx_value"),
        other => panic!("expected SchemaConflict, got {:?}", other),
    }
}

#[test]
fn same_field_name_in_two_subtypes_is_no_conflict() {
    let schema = vsr_type {
        version: 1,
        subtypes: vec![
            subtype("motor_power", vec![field("temp", FieldType::I16, "F", "Temperature")]),
            subtype("motor_speed", vec![field("temp", FieldType::I16, "F", "Temperature")]),
        ],
    };
    assert_eq!(schema.find_conflict(), None);
    assert!(schema.generate().is_ok());
}

#[test]
fn conflicts_are_reported_before_unresolved_types() {
    let schema = vsr_type {
        version: 1,
        subtypes: vec![
            subtype("pedal", vec![field("use_pedal", FieldType::Boolean, "", "Use Pedal Flag")]),
            subtype("pedal", vec![field("x", FieldType::U8, "", "X")]),
        ],
    };
    match schema.generate() {
        Err(GenError::SchemaConflict { name }) => assert_eq!(name, "pedal"),
        other => panic!("expected SchemaConflict, got {:?}", other),
    }
}

#[test]
fn failure_produces_no_partial_artifacts() {
    let schema = sample_schema();
    // The result carries an error alone: no header, no source.
    assert!(schema.generate().is_err());
}
