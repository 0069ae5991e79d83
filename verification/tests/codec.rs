use notepad_core::codec::TextEncoding;
use notepad_core::document::Core;
use notepad_core::error::{
    CoreError, DomainError, DomainErrorKind, IoFailure, SystemError, SystemErrorKind,
};

fn utf16le(text: &str) -> Vec<u8> {
    let mut bytes = vec![0xFF, 0xFE];
    for unit in text.encode_utf16() {
        bytes.push((unit & 0xFF) as u8);
        bytes.push((unit >> 8) as u8);
    }
    bytes
}

fn utf16be(text: &str) -> Vec<u8> {
    let mut bytes = vec![0xFE, 0xFF];
    for unit in text.encode_utf16() {
        bytes.push((unit >> 8) as u8);
        bytes.push((unit & 0xFF) as u8);
    }
    bytes
}

#[test]
fn encodings_have_labels_marks_and_an_order() {
    assert_eq!(TextEncoding::Utf8.label(), "UTF-8");
    assert_eq!(TextEncoding::Utf16Le.label(), "UTF-16LE");
    assert_eq!(TextEncoding::Utf16Be.label(), "UTF-16BE");
    assert_eq!(TextEncoding::ShiftJis.label(), "Shift_JIS");
    assert_eq!(TextEncoding::Utf8.bom(), &[] as &[u8]);
    assert_eq!(TextEncoding::Utf16Le.bom(), &[0xFF, 0xFE]);
    assert_eq!(TextEncoding::Utf16Be.bom(), &[0xFE, 0xFF]);
    assert_eq!(TextEncoding::ShiftJis.bom(), &[] as &[u8]);
    assert_eq!(TextEncoding::Utf8.next(), TextEncoding::Utf16Le);
    assert_eq!(TextEncoding::Utf16Le.next(), TextEncoding::Utf16Be);
    assert_eq!(TextEncoding::Utf16Be.next(), TextEncoding::ShiftJis);
    assert_eq!(TextEncoding::ShiftJis.next(), TextEncoding::Utf8);
}

#[test]
fn encodings_map_to_their_codecs_and_back() {
    for encoding in [
        TextEncoding::Utf8,
        TextEncoding::Utf16Le,
        TextEncoding::Utf16Be,
        TextEncoding::ShiftJis,
    ] {
        assert_eq!(TextEncoding::from_encoding(encoding.encoding()), Some(encoding));
    }
    assert_eq!(TextEncoding::Utf8.encoding().name(), "UTF-8");
    assert_eq!(TextEncoding::Utf16Le.encoding().name(), "UTF-16LE");
    assert_eq!(TextEncoding::Utf16Be.encoding().name(), "UTF-16BE");
    assert_eq!(TextEncoding::ShiftJis.encoding().name(), "Shift_JIS");
    assert_eq!(TextEncoding::from_encoding(encoding_rs::EUC_JP), None);
}

#[test]
fn utf8_round_trip_recovers_text_and_encoding() {
    let text = "plain, \u{E9}, \u{3042}\n\u{1F600} end";
    let bytes = Core::encode_text(text, TextEncoding::Utf8);
    assert_eq!(bytes, text.as_bytes());
    let mut core = Core::new();
    core.insert_str("old");
    let loaded = core.load_from_bytes(&bytes);
    assert!(matches!(loaded, Ok(TextEncoding::Utf8)));
    assert_eq!(core.text(), text);
    assert_eq!(core.encoding(), TextEncoding::Utf8);
}

#[test]
fn empty_text_round_trips_in_every_encoding() {
    for (encoding, reported) in [
        (TextEncoding::Utf8, TextEncoding::Utf8),
        (TextEncoding::Utf16Le, TextEncoding::Utf16Le),
        (TextEncoding::Utf16Be, TextEncoding::Utf16Be),
        (TextEncoding::ShiftJis, TextEncoding::Utf8),
    ] {
        let bytes = Core::encode_text("", encoding);
        assert_eq!(bytes, encoding.bom());
        let mut core = Core::new();
        assert!(matches!(core.load_from_bytes(&bytes), Ok(found) if found == reported));
        assert_eq!(core.text(), "");
    }
}

#[test]
fn encode_text_puts_the_mark_in_front_of_the_payload() {
    assert_eq!(Core::encode_text("a", TextEncoding::Utf16Le), vec![0xFF, 0xFE, 0x61, 0x00]);
    assert_eq!(
        Core::encode_text("hi", TextEncoding::Utf16Le),
        vec![0xFF, 0xFE, b'h', 0, b'i', 0]
    );
    assert_eq!(
        Core::encode_text("hi", TextEncoding::Utf16Be),
        vec![0xFE, 0xFF, 0, b'h', 0, b'i']
    );
    assert_eq!(Core::encode_text("hi", TextEncoding::Utf8), vec![b'h', b'i']);
    assert_eq!(Core::encode_text("hi", TextEncoding::ShiftJis), vec![b'h', b'i']);
    assert_eq!(
        Core::encode_text("\u{3042}", TextEncoding::ShiftJis),
        vec![0x82, 0xA0]
    );
    assert_eq!(
        Core::encode_text("\u{3042}", TextEncoding::Utf16Le),
        vec![0xFF, 0xFE, 0x42, 0x30]
    );
    assert_eq!(
        Core::encode_text("\u{3042}", TextEncoding::Utf16Be),
        vec![0xFE, 0xFF, 0x30, 0x42]
    );
    assert_eq!(
        Core::encode_text("\u{1F600}", TextEncoding::Utf16Le),
        vec![0xFF, 0xFE, 0x3D, 0xD8, 0x00, 0xDE]
    );
    assert_eq!(
        Core::encode_text("\u{10000}\u{10FFFF}", TextEncoding::Utf16Be),
        vec![0xFE, 0xFF, 0xD8, 0x00, 0xDC, 0x00, 0xDB, 0xFF, 0xDF, 0xFF]
    );
    assert_eq!(
        Core::encode_text("\u{FFFF}\u{D7FF}\u{E000}", TextEncoding::Utf16Le),
        vec![0xFF, 0xFE, 0xFF, 0xFF, 0xFF, 0xD7, 0x00, 0xE0]
    );
    let text = "mixed \u{E9} \u{3042}\n\u{1F600}\u{10348} end";
    assert_eq!(Core::encode_text(text, TextEncoding::Utf16Le), utf16le(text));
    assert_eq!(Core::encode_text(text, TextEncoding::Utf16Be), utf16be(text));
    assert_eq!(Core::frame_payload(TextEncoding::Utf16Be, &[1, 2]), vec![0xFE, 0xFF, 1, 2]);
    assert_eq!(Core::frame_payload(TextEncoding::Utf8, &[1, 2]), vec![1, 2]);
}

#[test]
fn utf16_round_trip_recovers_text_and_encoding() {
    let mut core = Core::new();
    let bytes = Core::encode_text("ab", TextEncoding::Utf16Le);
    assert!(matches!(core.load_from_bytes(&bytes), Ok(TextEncoding::Utf16Le)));
    assert_eq!(core.text(), "ab");
    for encoding in [TextEncoding::Utf16Le, TextEncoding::Utf16Be] {
        for text in [
            "a",
            "plain, \u{E9}, \u{3042}\n\u{1F600} end",
            "\u{10000}\u{10FFFF}\u{FFFF}",
            "x\u{FEFF}\u{FFFE}",
            "line one\r\nline two\n",
        ] {
            let bytes = Core::encode_text(text, encoding);
            let mut core = Core::new();
            core.insert_str("old");
            let loaded = core.load_from_bytes(&bytes);
            assert!(matches!(loaded, Ok(found) if found == encoding));
            assert_eq!(core.text(), text);
            assert_eq!(core.encoding(), encoding);
            assert!(!core.is_dirty());
        }
    }
}

#[test]
fn shift_jis_files_are_read_as_utf8() {
    let bytes = Core::encode_text("plain ascii", TextEncoding::ShiftJis);
    let mut core = Core::new();
    assert!(matches!(core.load_from_bytes(&bytes), Ok(TextEncoding::Utf8)));
    assert_eq!(core.text(), "plain ascii");
}

#[test]
fn a_mark_of_its_own_in_the_text_is_taken_for_a_mark() {
    let mut core = Core::new();
    let bytes = Core::encode_text("\u{FEFF}a", TextEncoding::Utf8);
    assert!(matches!(core.load_from_bytes(&bytes), Ok(TextEncoding::Utf8)));
    assert_eq!(core.text(), "a");
    let bytes = Core::encode_text("\u{FFFE}a", TextEncoding::Utf16Le);
    assert!(matches!(core.load_from_bytes(&bytes), Ok(TextEncoding::Utf16Le)));
    assert_eq!(core.text(), "\u{6100}");
}

#[test]
fn load_sniffs_the_byte_order_mark() {
    let mut core = Core::new();
    assert!(matches!(core.load_from_bytes(&utf16le("h\u{3042}\n")), Ok(TextEncoding::Utf16Le)));
    assert_eq!(core.text(), "h\u{3042}\n");
    assert_eq!(core.encoding(), TextEncoding::Utf16Le);
    assert!(matches!(core.load_from_bytes(&utf16be("h\u{1F600}")), Ok(TextEncoding::Utf16Be)));
    assert_eq!(core.text(), "h\u{1F600}");
    assert!(matches!(
        core.load_from_bytes(&[0xEF, 0xBB, 0xBF, b'o', b'k']),
        Ok(TextEncoding::Utf8)
    ));
    assert_eq!(core.text(), "ok");
    assert!(matches!(core.load_from_bytes(&[0x82, 0xA0]), Ok(TextEncoding::Utf8)));
    assert_eq!(core.text(), "\u{FFFD}\u{FFFD}");
    assert!(matches!(core.load_from_bytes(&[0xFF]), Ok(TextEncoding::Utf8)));
    assert_eq!(core.text(), "\u{FFFD}");
}

#[test]
fn load_resets_cursor_selection_preedit_and_history() {
    let mut core = Core::new();
    core.insert_str("first");
    core.insert_str(" second");
    core.undo();
    core.select_all();
    core.set_preedit("x".to_string(), None);
    core.set_path(Some(std::path::PathBuf::from("kept.txt")));
    assert!(core.load_from_bytes(b"new\ntext").is_ok());
    assert_eq!(core.text(), "new\ntext");
    assert_eq!(core.display_text(), "new\ntext");
    assert_eq!(core.cursor_char(), 0);
    assert_eq!(core.selection_range(), None);
    assert!(!core.is_dirty());
    assert!(!core.undo());
    assert!(!core.redo());
    assert_eq!(core.path(), Some(&std::path::PathBuf::from("kept.txt")));
    assert_eq!(core.line_count(), 2);
}

#[test]
fn io_failures_are_classified() {
    let cases = [
        (IoFailure::NotFound, SystemErrorKind::Permission, false),
        (IoFailure::AlreadyExists, SystemErrorKind::Permission, false),
        (IoFailure::PermissionDenied, SystemErrorKind::Permission, false),
        (IoFailure::InvalidData, SystemErrorKind::Encoding, false),
        (IoFailure::InvalidInput, SystemErrorKind::Encoding, false),
        (IoFailure::Interrupted, SystemErrorKind::Io, true),
        (IoFailure::WouldBlock, SystemErrorKind::Io, true),
        (IoFailure::TimedOut, SystemErrorKind::Io, true),
        (IoFailure::Other, SystemErrorKind::Io, false),
    ];
    for (failure, kind, retriable) in cases {
        match CoreError::from_failure("read a.txt", failure, "it broke") {
            CoreError::System(err) => {
                assert_eq!(err.kind, kind);
                assert_eq!(err.retriable, retriable);
                assert_eq!(err.context, "read a.txt: it broke");
            }
            CoreError::Domain(_) => panic!("a failed read is a system error"),
        }
    }
}

#[test]
fn io_errors_become_system_errors() {
    let err = std::io::Error::new(std::io::ErrorKind::NotFound, "gone");
    match CoreError::from_io("read a.txt", err) {
        CoreError::System(err) => {
            assert_eq!(err.kind, SystemErrorKind::Permission);
            assert!(!err.retriable);
            assert_eq!(err.context, "read a.txt: gone");
        }
        CoreError::Domain(_) => panic!("a failed read is a system error"),
    }
    let err = std::io::Error::new(std::io::ErrorKind::TimedOut, "slow");
    match CoreError::from_io("write b.txt", err) {
        CoreError::System(err) => {
            assert_eq!(err.kind, SystemErrorKind::Io);
            assert!(err.retriable);
            assert_eq!(err.context, "write b.txt: slow");
        }
        CoreError::Domain(_) => panic!("a failed write is a system error"),
    }
    let err = std::io::Error::new(std::io::ErrorKind::InvalidData, "garbled");
    assert!(matches!(
        CoreError::from_io("read", err),
        CoreError::System(SystemError { kind: SystemErrorKind::Encoding, retriable: false, .. })
    ));
}

#[test]
fn errors_describe_themselves() {
    let system = CoreError::System(SystemError {
        kind: SystemErrorKind::Permission,
        context: "read a.txt: denied".to_string(),
        retriable: false,
    });
    assert_eq!(
        system.describe(),
        "system error: Permission (retriable=false) read a.txt: denied"
    );
    let retriable = CoreError::System(SystemError {
        kind: SystemErrorKind::Io,
        context: "c".to_string(),
        retriable: true,
    });
    assert_eq!(retriable.describe(), "system error: Io (retriable=true) c");
    for (kind, name) in [
        (SystemErrorKind::Encoding, "Encoding"),
        (SystemErrorKind::Os, "Os"),
        (SystemErrorKind::Unknown, "Unknown"),
    ] {
        let error = CoreError::System(SystemError { kind, context: String::new(), retriable: false });
        assert_eq!(error.describe(), format!("system error: {} (retriable=false) ", name));
    }
    for (kind, name) in [
        (DomainErrorKind::InvalidOperation, "InvalidOperation"),
        (DomainErrorKind::InvalidState, "InvalidState"),
        (DomainErrorKind::OutOfRange, "OutOfRange"),
        (DomainErrorKind::EmptySelection, "EmptySelection"),
    ] {
        let error = CoreError::Domain(DomainError { kind, context: "why".to_string() });
        assert_eq!(error.describe(), format!("domain error: {} why", name));
    }
}
