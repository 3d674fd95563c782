use dae::codec::{FieldDescriptor, FieldType, FieldValue};
use dae::reassembler::Reassembler;
use dae::session::{Action, MsgType, Session, State};
use dae::Error;

fn header(tag: u8) -> Vec<u8> {
    // 0xFEEDBEEF, little-endian, then the message type tag.
    let mut v = vec![0xEF, 0xBE, 0xED, 0xFE];
    v.push(tag);
    v
}

fn string_frame(uid: u32, text: &[u8]) -> Vec<u8> {
    let mut v = header(1);
    v.extend_from_slice(&uid.to_le_bytes());
    v.extend_from_slice(&(text.len() as u32).to_le_bytes());
    v.extend_from_slice(text);
    v
}

fn descriptor_frame(uid: u32, fields: &[(u8, u32)]) -> Vec<u8> {
    let mut v = header(3);
    v.extend_from_slice(&uid.to_le_bytes());
    v.push(fields.len() as u8);
    for (tag, name) in fields {
        v.push(*tag);
        v.extend_from_slice(&name.to_le_bytes());
    }
    v
}

fn entry_frame(uid: u32, payload: &[u8]) -> Vec<u8> {
    let mut v = header(2);
    v.extend_from_slice(&uid.to_le_bytes());
    v.extend_from_slice(payload);
    v
}

/// Feeds `bytes` in chunks of `chunk` bytes, stepping to quiescence after
/// each feed, and returns a printable trace of every storage action.
fn drive(s: &mut Session, bytes: &[u8], chunk: usize) -> Vec<String> {
    let mut out = Vec::new();
    for c in bytes.chunks(chunk) {
        s.feed(c).unwrap();
        loop {
            match s.step().unwrap() {
                Action::NeedBytes => break,
                Action::Progress => {}
                Action::EnsureTable(ddl) => out.push(ddl),
                Action::InsertRow(stmt, vals) => {
                    out.push(stmt);
                    out.push(format!("{:?}", vals));
                }
            }
        }
    }
    out
}

#[test]
fn wire_string_then_descriptor_then_entry() {
    let mut bytes = Vec::new();
    bytes.extend_from_slice(&string_frame(0, b"sensors"));
    bytes.extend_from_slice(&string_frame(1, b"temperature"));
    bytes.extend_from_slice(&descriptor_frame(0, &[(1, 1)]));
    bytes.extend_from_slice(&entry_frame(0, &[0x2A, 0, 0, 0]));

    let mut s = Session::new();
    let trace = drive(&mut s, &bytes, bytes.len());
    assert_eq!(
        trace,
        vec![
            String::from("CREATE TABLE sensors (temperature INTEGER)"),
            String::from("INSERT INTO sensors (temperature) VALUES (?1)"),
            String::from("[Int(42)]"),
        ]
    );
    assert_eq!(s.strings_len(), 2);
    assert_eq!(s.registry_len(), 1);
    assert_eq!(s.window_len(), 0);
}

// Splitting the same stream into single bytes decodes to exactly the same
// result as delivering it whole.
#[test]
fn fragmentation_one_byte_at_a_time() {
    let mut bytes = Vec::new();
    bytes.extend_from_slice(&string_frame(0, b"sensors"));
    bytes.extend_from_slice(&string_frame(1, b"temperature"));
    bytes.extend_from_slice(&descriptor_frame(0, &[(1, 1)]));
    bytes.extend_from_slice(&entry_frame(0, &[0x2A, 0, 0, 0]));

    let mut whole = Session::new();
    let expected = drive(&mut whole, &bytes, bytes.len());

    let mut split = Session::new();
    let trace = drive(&mut split, &bytes, 1);

    assert_eq!(trace, expected);
    assert_eq!(split.strings_len(), 2);
    assert_eq!(split.registry_len(), 1);
    assert_eq!(split.window_len(), 0);
}

// A corrupted magic byte costs exactly one byte of the stream: the decoder
// realigns and the following valid frame decodes normally.
#[test]
fn resync_after_corrupt_magic() {
    let mut bytes = vec![0x00];
    bytes.extend_from_slice(&string_frame(0, b"recovered"));

    let mut s = Session::new();
    let trace = drive(&mut s, &bytes, bytes.len());
    assert_eq!(trace, Vec::<String>::new());
    assert_eq!(s.strings_len(), 1);
    assert_eq!(s.window_len(), 0);
}

// A session-level replay of registering a schema at uid 6 under interned
// names 7 and 8, then sending one entry row against it.
#[test]
fn entry_row_binds_against_registered_schema() {
    let mut s = Session::new();
    for i in 0..7u32 {
        s.intern_string(i, format!("s{}", i)).unwrap();
    }
    s.intern_string(7, String::from("temperature")).unwrap();
    s.intern_string(8, String::from("sensors")).unwrap();

    for uid in 0..6u32 {
        let fields = vec![FieldDescriptor {
            data_type: FieldType::Int,
            name: 0,
        }];
        s.register_descriptor(uid, 0, fields).unwrap();
    }
    let fields = vec![FieldDescriptor {
        data_type: FieldType::Int,
        name: 7,
    }];
    let ddl = s.register_descriptor(6, 8, fields).unwrap();
    assert_eq!(ddl, "CREATE TABLE sensors (temperature INTEGER)");
    assert_eq!(s.registry_len(), 7);

    s.feed(&entry_frame(6, &[0x2A, 0, 0, 0])).unwrap();
    assert!(matches!(s.step(), Ok(Action::Progress)));
    match s.step() {
        Ok(Action::InsertRow(stmt, vals)) => {
            assert_eq!(stmt, "INSERT INTO sensors (temperature) VALUES (?1)");
            assert_eq!(vals, vec![FieldValue::Int(42)]);
        }
        other => panic!("unexpected step outcome: {:?}", other),
    }
    assert_eq!(s.window_len(), 0);
}

// A descriptor sent at uid 1 before uid 0 was ever registered is a fatal
// protocol violation and registers nothing.
#[test]
fn descriptor_out_of_order_is_fatal() {
    let mut s = Session::new();
    s.intern_string(0, String::from("t0")).unwrap();
    s.intern_string(1, String::from("t1")).unwrap();

    s.feed(&descriptor_frame(1, &[(1, 0)])).unwrap();
    assert!(matches!(s.step(), Ok(Action::Progress)));
    assert_eq!(s.step().err(), Some(Error::ProtocolViolation));
    assert_eq!(s.registry_len(), 0);
}

// An entry referencing a schema that was never registered cannot be
// interpreted; the session ends.
#[test]
fn entry_for_unknown_descriptor_is_fatal() {
    let mut s = Session::new();
    s.feed(&entry_frame(0, &[1, 2, 3, 4])).unwrap();
    assert!(matches!(s.step(), Ok(Action::Progress)));
    assert_eq!(s.step().err(), Some(Error::ProtocolViolation));
}

// A string frame at the wrong identifier is a fatal sequencing violation.
#[test]
fn string_out_of_order_is_fatal() {
    let mut s = Session::new();
    s.feed(&string_frame(5, b"late")).unwrap();
    assert!(matches!(s.step(), Ok(Action::Progress)));
    assert_eq!(s.step().err(), Some(Error::ProtocolViolation));
    assert_eq!(s.strings_len(), 0);
}

// A string frame whose text is not UTF-8 is discarded whole; decoding
// resumes at the next header.
#[test]
fn invalid_utf8_string_frame_is_skipped() {
    let mut s = Session::new();
    let mut bytes = string_frame(0, &[0xFF, 0xFE, 0x00]);
    bytes.extend_from_slice(&string_frame(0, b"good"));
    let trace = drive(&mut s, &bytes, bytes.len());
    assert_eq!(trace, Vec::<String>::new());
    assert_eq!(s.strings_len(), 1);
    assert_eq!(s.window_len(), 0);
}

// A declared string length beyond the buffer capacity can never be
// buffered; that is a distinct fatal condition, not silent truncation.
#[test]
fn oversized_string_frame_is_fatal() {
    let mut s = Session::new();
    let mut bytes = header(1);
    bytes.extend_from_slice(&0u32.to_le_bytes());
    bytes.extend_from_slice(&5000u32.to_le_bytes());
    s.feed(&bytes).unwrap();
    assert!(matches!(s.step(), Ok(Action::Progress)));
    assert_eq!(s.step().err(), Some(Error::FrameTooLarge));
}

// An unrecognized message tag is treated as a no-op frame: the five header
// bytes are skipped and scanning continues.
#[test]
fn unknown_message_tag_is_skipped() {
    let mut s = Session::new();
    s.feed(&header(9)).unwrap();
    assert!(matches!(s.step(), Ok(Action::Progress)));
    assert_eq!(s.current_state(), State::HeaderParsing);
    assert_eq!(s.window_len(), 0);
}

// Feeding more than the buffer can hold is rejected without losing the
// bytes already buffered.
#[test]
fn feed_beyond_capacity_is_rejected() {
    let mut s = Session::new();
    s.feed(&[1, 2, 3]).unwrap();
    let big = vec![0u8; 4094];
    assert_eq!(s.feed(&big), Err(Error::FrameTooLarge));
    assert_eq!(s.window_len(), 3);
}

// A descriptor frame with an unknown field tag, or with no fields at all,
// is discarded whole and registers nothing.
#[test]
fn malformed_descriptor_frames_are_skipped() {
    let mut s = Session::new();
    s.intern_string(0, String::from("t")).unwrap();
    let mut bytes = descriptor_frame(0, &[(9, 0)]);
    bytes.extend_from_slice(&descriptor_frame(0, &[]));
    let trace = drive(&mut s, &bytes, bytes.len());
    assert_eq!(trace, Vec::<String>::new());
    assert_eq!(s.registry_len(), 0);
    assert_eq!(s.window_len(), 0);
}

#[test]
fn message_tag_mapping() {
    assert_eq!(MsgType::from(1), MsgType::Str);
    assert_eq!(MsgType::from(2), MsgType::Entry);
    assert_eq!(MsgType::from(3), MsgType::Desc);
    assert_eq!(MsgType::from(0), MsgType::Invalid);
    assert_eq!(MsgType::from(250), MsgType::Invalid);
}

// The reassembler presents a contiguous window that survives consumption
// and refills byte for byte, and peeking never consumes.
#[test]
fn reassembler_window_survives_shift_and_refill() {
    let mut r = Reassembler::new();
    r.feed(&[1, 2, 3, 4, 5]).unwrap();
    assert_eq!(r.peek(2), Some(&[1u8, 2][..]));
    r.advance(2);
    assert_eq!(r.len(), 3);
    assert_eq!(r.peek(4), None);
    // The refill shifts the leftover bytes down before appending.
    r.feed(&[6, 7]).unwrap();
    assert_eq!(r.window_slice(), &[3, 4, 5, 6, 7]);
    assert_eq!(r.peek(5), Some(&[3u8, 4, 5, 6, 7][..]));
    assert_eq!(r.len(), 5);
}

// An entry decodes atomically: until the whole row is buffered nothing is
// consumed, and the completed row then decodes in one piece.
#[test]
fn entry_decodes_atomically() {
    let mut s = Session::new();
    s.intern_string(0, String::from("points")).unwrap();
    s.intern_string(1, String::from("x")).unwrap();
    s.intern_string(2, String::from("flag")).unwrap();
    let fields = vec![
        FieldDescriptor {
            data_type: FieldType::Int,
            name: 1,
        },
        FieldDescriptor {
            data_type: FieldType::Bool,
            name: 2,
        },
    ];
    s.register_descriptor(0, 0, fields).unwrap();

    let frame = entry_frame(0, &[7, 0, 0, 0, 1]);
    s.feed(&frame[..frame.len() - 3]).unwrap();
    assert!(matches!(s.step(), Ok(Action::Progress)));
    assert!(matches!(s.step(), Ok(Action::NeedBytes)));
    let buffered = s.window_len();
    assert!(matches!(s.step(), Ok(Action::NeedBytes)));
    assert_eq!(s.window_len(), buffered);

    s.feed(&frame[frame.len() - 3..]).unwrap();
    match s.step() {
        Ok(Action::InsertRow(stmt, vals)) => {
            assert_eq!(stmt, "INSERT INTO points (x, flag) VALUES (?1, ?2)");
            assert_eq!(vals, vec![FieldValue::Int(7), FieldValue::Bool(true)]);
        }
        other => panic!("unexpected step outcome: {:?}", other),
    }
    assert_eq!(s.window_len(), 0);
}
