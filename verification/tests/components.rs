use dae::codec::{decode_field, FieldDescriptor, FieldType, FieldValue};
use dae::descriptor::{read_descriptor, EntryDescriptor};
use dae::registry::Registry;
use dae::string_table::{utf8_to_string, StringTable};
use dae::Error;

fn match_field(field: Option<&FieldDescriptor>, field_type: u8, name: u32) {
    match field {
        Some(x) => {
            assert_eq!(x.data_type, FieldType::from_tag(field_type).unwrap());
            assert_eq!(x.name, name);
        }
        _ => panic!(),
    };
}

#[test]
fn read_proto() {
    let data: [u8; 15] = [
        0x6, 0x0, 0x0, 0x0, // id
        0x2, // num_fields
        0x1, // field type
        0x7, 0x0, 0x0, 0x0, // field name
        0x2, // field type
        0x8, 0x0, 0x0, 0x0, // field name
    ];

    match read_descriptor(&data) {
        Ok((desc, id, _read)) => {
            assert_eq!(id, 6);
            assert_eq!(desc.num_fields, 2);
            match_field(desc.fields.get(0), 1, 7);
            match_field(desc.fields.get(1), 2, 8);
        }
        _ => panic!(),
    };
}

fn table_with(names: &[&str]) -> StringTable {
    let mut t = StringTable::new();
    for (i, n) in names.iter().enumerate() {
        t.intern(i as u32, String::from(*n)).unwrap();
    }
    t
}

// Scenario: strings 7 and 8 resolve to a column and a table name, and a
// one-field schema registered at uid 6 compiles to the expected DDL and to
// an insert statement with exactly one placeholder.
#[test]
fn scenario_compile_against_interned_names() {
    let table = table_with(&["a", "b", "c", "d", "e", "f", "g", "temperature", "sensors"]);

    let mut desc = EntryDescriptor::make();
    desc.name = 8;
    desc.num_fields = 1;
    desc.fields.push(FieldDescriptor {
        data_type: FieldType::from_tag(1).unwrap(),
        name: 7,
    });

    let ddl = desc.make_create_cmd(&table).unwrap();
    assert_eq!(ddl, "CREATE TABLE sensors (temperature INTEGER)");

    desc.compile(&table).unwrap();
    assert_eq!(desc.sql_cmd, "INSERT INTO sensors (temperature) VALUES (?1)");
    let placeholders = desc.sql_cmd.chars().filter(|c| *c == '?').count();
    assert_eq!(placeholders, 1);

    let mut registry = Registry::new();
    for uid in 0..6 {
        let mut dummy = EntryDescriptor::make();
        dummy.name = 0;
        dummy.num_fields = 1;
        dummy.fields.push(FieldDescriptor {
            data_type: FieldType::from_tag(1).unwrap(),
            name: 0,
        });
        registry.register(uid, dummy).unwrap();
    }
    registry.register(6, desc).unwrap();
    let back = registry.get(6).unwrap();
    assert_eq!(back.sql_cmd, "INSERT INTO sensors (temperature) VALUES (?1)");
}

// Registering a payload and looking it up returns a descriptor whose field
// count, order and resolved names match the payload exactly.
#[test]
fn register_then_get_matches_input() {
    let table = table_with(&["widgets", "width", "height", "label"]);
    let data: [u8; 20] = [
        0x0, 0x0, 0x0, 0x0, // uid 0, also the table name id
        0x3, // three fields
        0x1, 0x1, 0x0, 0x0, 0x0, // Int "width"
        0x2, 0x2, 0x0, 0x0, 0x0, // Float "height"
        0x4, 0x3, 0x0, 0x0, 0x0, // Str "label"
    ];
    let (mut desc, uid, read) = read_descriptor(&data).unwrap();
    assert_eq!(read, 20);
    desc.compile(&table).unwrap();

    let mut registry = Registry::new();
    registry.register(uid, desc).unwrap();
    let back = registry.get(uid).unwrap();

    assert_eq!(back.num_fields, 3);
    assert_eq!(back.fields.len(), 3);
    let expected = [
        (FieldType::Int, "width"),
        (FieldType::Float, "height"),
        (FieldType::Str, "label"),
    ];
    for (i, (t, n)) in expected.iter().enumerate() {
        assert_eq!(back.fields[i].data_type, *t);
        assert_eq!(table.resolve(back.fields[i].name).unwrap(), *n);
    }
}

// Out-of-order registration always fails with a protocol violation and
// leaves the registry length unchanged.
fn one_field_desc() -> EntryDescriptor {
    let mut desc = EntryDescriptor::make();
    desc.num_fields = 1;
    desc.fields.push(FieldDescriptor {
        data_type: FieldType::Int,
        name: 0,
    });
    desc
}

#[test]
fn register_out_of_sequence_rejected() {
    let mut registry = Registry::new();

    assert_eq!(registry.register(1, one_field_desc()), Err(Error::ProtocolViolation));
    assert_eq!(registry.len(), 0);
    assert_eq!(registry.register(7, one_field_desc()), Err(Error::ProtocolViolation));
    assert_eq!(registry.len(), 0);

    registry.register(0, one_field_desc()).unwrap();
    assert_eq!(registry.len(), 1);
    assert_eq!(registry.register(0, one_field_desc()), Err(Error::ProtocolViolation));
    assert_eq!(registry.len(), 1);
    assert!(matches!(registry.get(1), Err(Error::ProtocolViolation)));
}

// An insert statement compiled for a schema of k fields holds exactly k
// positional placeholders, and decoding a row for it binds exactly k values
// in field order.
#[test]
fn insert_placeholder_count_round_trip() {
    let table = table_with(&["t", "c0", "c1", "c2"]);
    let mut desc = EntryDescriptor::make();
    desc.name = 0;
    desc.num_fields = 3;
    for i in 1..=3 {
        desc.fields.push(FieldDescriptor {
            data_type: FieldType::Int,
            name: i,
        });
    }
    desc.compile(&table).unwrap();
    assert_eq!(desc.sql_cmd, "INSERT INTO t (c0, c1, c2) VALUES (?1, ?2, ?3)");
    let placeholders = desc.sql_cmd.chars().filter(|c| *c == '?').count();
    assert_eq!(placeholders, 3);

    // A row of three little-endian integers decodes to three values.
    let row: [u8; 12] = [1, 0, 0, 0, 2, 0, 0, 0, 3, 0, 0, 0];
    let mut vals = Vec::new();
    let mut at = 0;
    for f in &desc.fields {
        let tag = match f.data_type {
            FieldType::Int => 1,
            FieldType::Float => 2,
            FieldType::Bool => 3,
            FieldType::Str => 4,
        };
        let (v, used) = decode_field(tag, &row[at..]).unwrap();
        vals.push(v);
        at += used;
    }
    assert_eq!(
        vals,
        vec![FieldValue::Int(1), FieldValue::Int(2), FieldValue::Int(3)]
    );
}

// Placeholder indices above nine take two digits.
#[test]
fn two_digit_placeholders() {
    let names: Vec<String> = (0..13).map(|i| format!("n{}", i)).collect();
    let refs: Vec<&str> = names.iter().map(|s| s.as_str()).collect();
    let table = table_with(&refs);
    let mut desc = EntryDescriptor::make();
    desc.name = 0;
    desc.num_fields = 12;
    for i in 1..=12 {
        desc.fields.push(FieldDescriptor {
            data_type: FieldType::Bool,
            name: i,
        });
    }
    desc.compile(&table).unwrap();
    assert!(desc.sql_cmd.ends_with("?10, ?11, ?12)"));
    let placeholders = desc.sql_cmd.chars().filter(|c| *c == '?').count();
    assert_eq!(placeholders, 12);
}

// Field-type equality compares shapes only; decoded payloads live in
// FieldValue, whose equality does compare the payload.  The narrowing is
// deliberate: schemas are compared by shape, never by a sample value.
#[test]
fn field_type_equality_is_shape_only() {
    assert_eq!(FieldType::from_tag(1).unwrap(), FieldType::Int);
    assert_ne!(FieldType::Int, FieldType::Float);
    assert_ne!(FieldType::Bool, FieldType::Str);
    // Bool is stored as INTEGER, like Int, yet the shapes stay distinct.
    assert_eq!(FieldType::Int.sql_type_text(), "INTEGER");
    assert_eq!(FieldType::Bool.sql_type_text(), "INTEGER");
    assert_ne!(FieldType::Int, FieldType::Bool);

    let (a, _) = decode_field(1, &[1, 0, 0, 0]).unwrap();
    let (b, _) = decode_field(1, &[2, 0, 0, 0]).unwrap();
    assert_ne!(a, b);
}

#[test]
fn decode_field_widths_and_values() {
    // Int: four little-endian bytes.
    let (v, used) = decode_field(1, &[0x2A, 0, 0, 0, 0xFF]).unwrap();
    assert_eq!(v, FieldValue::Int(42));
    assert_eq!(used, 4);

    // Float: four bytes of 32-bit IEEE-754, carried as raw bits.
    let bits = 1.5f32.to_le_bytes();
    let (v, used) = decode_field(2, &bits).unwrap();
    assert_eq!(v, FieldValue::Float(1.5f32.to_bits()));
    assert_eq!(used, 4);

    // Bool: one byte, any nonzero value is true.
    let (v, used) = decode_field(3, &[0]).unwrap();
    assert_eq!(v, FieldValue::Bool(false));
    assert_eq!(used, 1);
    let (v, _) = decode_field(3, &[7]).unwrap();
    assert_eq!(v, FieldValue::Bool(true));

    // Str: a four-byte string-table reference, not inline text.
    let (v, used) = decode_field(4, &[0x08, 0, 0, 0]).unwrap();
    assert_eq!(v, FieldValue::Str(8));
    assert_eq!(used, 4);
}

#[test]
fn decode_field_errors() {
    // An unknown tag is a recoverable malformed frame, never an abort.
    assert_eq!(decode_field(0, &[1, 2, 3, 4]), Err(Error::MalformedFrame));
    assert_eq!(decode_field(9, &[1, 2, 3, 4]), Err(Error::MalformedFrame));
    // A window shorter than the field's width is backpressure.
    assert_eq!(decode_field(1, &[1, 2, 3]), Err(Error::InsufficientData));
    assert_eq!(decode_field(3, &[]), Err(Error::InsufficientData));
}

#[test]
fn read_descriptor_errors() {
    // Too short for the fixed prefix, or for the declared fields.
    assert_eq!(read_descriptor(&[0, 0, 0, 0]).err(), Some(Error::InsufficientData));
    let short: [u8; 7] = [0, 0, 0, 0, 1, 1, 7];
    assert_eq!(read_descriptor(&short).err(), Some(Error::InsufficientData));
    // A zero field count violates the schema shape.
    let empty: [u8; 5] = [0, 0, 0, 0, 0];
    assert_eq!(read_descriptor(&empty).err(), Some(Error::MalformedFrame));
    // An unknown field tag inside a complete frame is malformed.
    let bad_tag: [u8; 10] = [0, 0, 0, 0, 1, 9, 7, 0, 0, 0];
    assert_eq!(read_descriptor(&bad_tag).err(), Some(Error::MalformedFrame));
}

#[test]
fn intern_and_resolve_discipline() {
    let mut t = StringTable::new();
    assert_eq!(t.intern(1, String::from("late")), Err(Error::ProtocolViolation));
    assert_eq!(t.len(), 0);
    t.intern(0, String::from("first")).unwrap();
    t.intern(1, String::from("second")).unwrap();
    assert_eq!(t.len(), 2);
    assert_eq!(t.resolve(0).unwrap(), "first");
    assert_eq!(t.resolve(1).unwrap(), "second");
    assert!(matches!(t.resolve(2), Err(Error::ProtocolViolation)));
    assert_eq!(t.intern(0, String::from("again")), Err(Error::ProtocolViolation));
    assert_eq!(t.resolve(0).unwrap(), "first");
}

#[test]
fn utf8_conversion() {
    assert_eq!(utf8_to_string(b"plain"), Some(String::from("plain")));
    assert_eq!(
        utf8_to_string(&[0x68, 0xC3, 0xA9, 0x6C, 0x6C, 0x6F]),
        Some(String::from("h\u{e9}llo"))
    );
    assert_eq!(utf8_to_string(&[0xFF, 0xFE]), None);
    assert_eq!(utf8_to_string(&[]), Some(String::new()));
}

// A name a compiled statement resolved stays stable when the table grows:
// the table is append-only, so compiling first and interning more strings
// afterwards never rewrites the compiled text.
#[test]
fn compiled_text_survives_later_interning() {
    let mut table = table_with(&["logs", "message"]);
    let mut desc = EntryDescriptor::make();
    desc.name = 0;
    desc.num_fields = 1;
    desc.fields.push(FieldDescriptor {
        data_type: FieldType::Str,
        name: 1,
    });
    desc.compile(&table).unwrap();
    let before = desc.sql_cmd.clone();
    table.intern(2, String::from("more")).unwrap();
    assert_eq!(desc.sql_cmd, before);
}
