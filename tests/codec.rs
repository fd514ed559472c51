use glance::codec::{
    decode_current, decode_file, decode_legacy, encode_file, encode_history, mutate_document,
    parse_history, Json,
};
use glance::history::{FileState, HistoryState, Mutation};
use glance::number::{format_integer, format_timestamp, parse_integer, parse_timestamp};

fn text(s: &str) -> Json {
    Json::Text(s.to_string())
}

fn num(s: &str) -> Json {
    Json::Number(s.to_string())
}

fn obj(fields: Vec<(&str, Json)>) -> Json {
    Json::Object(fields.into_iter().map(|(k, v)| (k.to_string(), v)).collect())
}

fn legacy_doc() -> Json {
    obj(vec![
        ("path", text("/d/shot.png")),
        ("name", text("shot.png")),
        ("size", num("2048")),
        ("time", num("1700000000.1234567")),
    ])
}

#[test]
fn integers_round_trip() {
    assert_eq!(format_integer(0), "0");
    assert_eq!(format_integer(2048), "2048");
    assert_eq!(format_integer(u64::MAX), "18446744073709551615");
    assert_eq!(parse_integer("2048"), Some(2048));
    assert_eq!(parse_integer("18446744073709551615"), Some(u64::MAX));
    assert_eq!(parse_integer("18446744073709551616"), None);
    assert_eq!(parse_integer(""), None);
    assert_eq!(parse_integer("12a"), None);
    assert_eq!(parse_integer("1.5"), None);
    assert_eq!(parse_integer("-1"), None);
}

#[test]
fn timestamps_round_trip() {
    assert_eq!(format_timestamp(1_700_000_000_123), "1700000000.123");
    assert_eq!(format_timestamp(5), "0.005");
    assert_eq!(parse_timestamp("1700000000.123"), Some(1_700_000_000_123));
    assert_eq!(parse_timestamp("1700000000.1234567"), Some(1_700_000_000_123));
    assert_eq!(parse_timestamp("1700000000.5"), Some(1_700_000_000_500));
    assert_eq!(parse_timestamp("1700000000"), Some(1_700_000_000_000));
    assert_eq!(parse_timestamp("1700000000."), None);
    assert_eq!(parse_timestamp(".5"), None);
    assert_eq!(parse_timestamp("1.2.3"), None);
    assert_eq!(parse_timestamp("1e9"), None);
    for ms in [0u64, 1, 999, 1000, 1_700_000_000_001, u64::MAX] {
        assert_eq!(parse_timestamp(&format_timestamp(ms)), Some(ms));
    }
}

#[test]
fn history_round_trips_through_its_document() {
    let mut h = HistoryState::new();
    h.push(FileState::new("/d/a.txt".to_string(), 12, 1_700_000_000_250), 5);
    h.push(FileState::new("/d/b.png".to_string(), 4096, 1_700_000_001_000), 5);
    h.select_prev();
    let doc = encode_history(&h);
    let back = parse_history(&doc);
    assert_eq!(back.selected, 1);
    assert_eq!(back.entries.len(), 2);
    for (x, y) in back.entries.iter().zip(h.entries.iter()) {
        assert_eq!(x.path, y.path);
        assert_eq!(x.name, y.name);
        assert_eq!(x.size, y.size);
        assert_eq!(x.time_ms, y.time_ms);
    }
}

#[test]
fn legacy_document_reads_as_one_entry() {
    let doc = legacy_doc();
    assert!(decode_current(&doc).is_none());
    let h = parse_history(&doc);
    assert_eq!(h.selected, 0);
    assert_eq!(h.entries.len(), 1);
    assert_eq!(h.entries[0].name, "shot.png");
    assert_eq!(h.entries[0].size, 2048);
    assert_eq!(h.entries[0].time_ms, 1_700_000_000_123);
    assert!(decode_legacy(&doc).is_some());
}

#[test]
fn damaged_documents_read_as_empty() {
    for doc in [
        Json::Null,
        Json::Bool(true),
        text("x"),
        Json::Array(vec![]),
        obj(vec![]),
        obj(vec![("entries", Json::Array(vec![])), ("selected", num("-1"))]),
        obj(vec![("entries", Json::Array(vec![legacy_doc(), num("3")])), ("selected", num("0"))]),
        obj(vec![("path", text("/d/x")), ("name", text("x")), ("size", num("1.5")), ("time", num("1"))]),
    ] {
        let h = parse_history(&doc);
        assert!(h.entries.is_empty());
        assert_eq!(h.selected, 0);
    }
}

#[test]
fn current_layout_keeps_a_stale_selection() {
    let doc = obj(vec![
        ("selected", num("4")),
        ("entries", Json::Array(vec![legacy_doc()])),
        ("extra", Json::Null),
    ]);
    let h = parse_history(&doc);
    assert_eq!(h.entries.len(), 1);
    assert_eq!(h.selected, 4);
}

#[test]
fn file_document_fields() {
    let f = FileState::new("/d/shot.png".to_string(), 2048, 1_700_000_000_123);
    let j = encode_file(&f);
    match &j {
        Json::Object(fields) => {
            let keys: Vec<&str> = fields.iter().map(|(k, _)| k.as_str()).collect();
            assert_eq!(keys, vec!["path", "name", "size", "time"]);
            assert!(matches!(&fields[3].1, Json::Number(t) if t == "1700000000.123"));
        }
        _ => panic!("not an object"),
    }
    let back = decode_file(&j).unwrap();
    assert_eq!(back.path, "/d/shot.png");
}

#[test]
fn mutate_document_applies_one_change() {
    let doc = mutate_document(&Json::Null, Mutation::Push {
        entry: FileState::new("/d/a".to_string(), 1, 1000),
        max_size: 5,
    });
    let doc = mutate_document(&doc, Mutation::Push {
        entry: FileState::new("/d/b".to_string(), 2, 2000),
        max_size: 5,
    });
    let doc = mutate_document(&doc, Mutation::SelectPrev);
    let h = parse_history(&doc);
    assert_eq!(h.entries.len(), 2);
    assert_eq!(h.entries[0].path, "/d/b");
    assert_eq!(h.selected, 1);
    let doc = mutate_document(&doc, Mutation::SelectNext);
    assert_eq!(parse_history(&doc).selected, 0);
}
