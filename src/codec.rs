//! The persisted document as a JSON tree, and how a history is written to it
//! and read back from it. Reading tries the current layout, then the older
//! single-file layout, and falls back to an empty history.

use crate::history::{applied, FileState, FileStateV, HistoryState, HistoryV, Mutation};
use crate::number::{
    digits_of, format_integer, format_timestamp, integer_of, parse_integer, parse_timestamp,
    timestamp_of, timestamp_text,
};
use vstd::prelude::*;

verus! {

/// A JSON value. A number is held as its decimal text.
#[derive(Debug)]
pub enum Json {
    Null,
    Bool(bool),
    Number(String),
    Text(String),
    Array(Vec<Json>),
    Object(Vec<(String, Json)>),
}

pub open spec fn key_entries() -> Seq<char> {
    seq!['e', 'n', 't', 'r', 'i', 'e', 's']
}

pub open spec fn key_selected() -> Seq<char> {
    seq!['s', 'e', 'l', 'e', 'c', 't', 'e', 'd']
}

pub open spec fn key_path() -> Seq<char> {
    seq!['p', 'a', 't', 'h']
}

pub open spec fn key_name() -> Seq<char> {
    seq!['n', 'a', 'm', 'e']
}

pub open spec fn key_size() -> Seq<char> {
    seq!['s', 'i', 'z', 'e']
}

pub open spec fn key_time() -> Seq<char> {
    seq!['t', 'i', 'm', 'e']
}

/// The value of the first field named `key`.
pub open spec fn field_of(fields: Seq<(String, Json)>, key: Seq<char>) -> Option<Json>
    decreases fields.len(),
{
    if fields.len() == 0 {
        None
    } else if fields[0].0@ == key {
        Some(fields[0].1)
    } else {
        field_of(fields.drop_first(), key)
    }
}

/// The field `key` of an object.
pub open spec fn member(j: Json, key: Seq<char>) -> Option<Json> {
    match j {
        Json::Object(fields) => field_of(fields@, key),
        _ => None,
    }
}

/// The field `key` of an object, if it is a string.
pub open spec fn text_member(j: Json, key: Seq<char>) -> Option<Seq<char>> {
    match member(j, key) {
        Some(Json::Text(t)) => Some(t@),
        _ => None,
    }
}

/// The field `key` of an object, if it is an unsigned 64-bit integer.
pub open spec fn integer_member(j: Json, key: Seq<char>) -> Option<u64> {
    match member(j, key) {
        Some(Json::Number(t)) => integer_of(t@),
        _ => None,
    }
}

/// The field `key` of an object, if it is a timestamp in seconds.
pub open spec fn timestamp_member(j: Json, key: Seq<char>) -> Option<u64> {
    match member(j, key) {
        Some(Json::Number(t)) => timestamp_of(t@),
        _ => None,
    }
}

/// The file that an object describes, if it has all four fields.
pub open spec fn file_of(j: Json) -> Option<FileStateV> {
    match (
        text_member(j, key_path()),
        text_member(j, key_name()),
        integer_member(j, key_size()),
        timestamp_member(j, key_time()),
    ) {
        (Some(path), Some(name), Some(size), Some(time_ms)) => Some(
            FileStateV { path, name, size, time_ms },
        ),
        _ => None,
    }
}

/// The files that a list of objects describes, if each one describes a file.
pub open spec fn files_of(items: Seq<Json>) -> Option<Seq<FileStateV>>
    decreases items.len(),
{
    if items.len() == 0 {
        Some(Seq::empty())
    } else {
        match (files_of(items.drop_last()), file_of(items.last())) {
            (Some(fs), Some(f)) => Some(fs.push(f)),
            _ => None,
        }
    }
}

/// The history in the current layout: `entries` and `selected`.
pub open spec fn current_of(j: Json) -> Option<HistoryV> {
    match (member(j, key_entries()), integer_member(j, key_selected())) {
        (Some(Json::Array(items)), Some(sel)) => if sel <= usize::MAX {
            match files_of(items@) {
                Some(entries) => Some(HistoryV { entries, selected: sel as nat }),
                None => None,
            }
        } else {
            None
        },
        _ => None,
    }
}

/// The history in the older layout: a single file, selected.
pub open spec fn legacy_of(j: Json) -> Option<HistoryV> {
    match file_of(j) {
        Some(f) => Some(HistoryV { entries: seq![f], selected: 0 }),
        None => None,
    }
}

pub open spec fn empty_history() -> HistoryV {
    HistoryV { entries: Seq::empty(), selected: 0 }
}

/// The history that a document holds: the current layout if it is one, else
/// the older layout if it is one, else the empty history. A file entry counts
/// only if its `time` is a plain decimal (see `timestamp_of`).
pub open spec fn history_of(j: Json) -> HistoryV {
    match current_of(j) {
        Some(h) => h,
        None => match legacy_of(j) {
            Some(h) => h,
            None => empty_history(),
        },
    }
}

/// `j` is the written form of the file `f`: an object of `path`, `name`,
/// `size` and `time`, the last in seconds.
pub open spec fn file_encodes(j: Json, f: FileStateV) -> bool {
    match j {
        Json::Object(fields) => {
            &&& fields@.len() == 4
            &&& fields@[0].0@ == key_path() && fields@[0].1 is Text
            &&& fields@[0].1->Text_0@ == f.path
            &&& fields@[1].0@ == key_name() && fields@[1].1 is Text
            &&& fields@[1].1->Text_0@ == f.name
            &&& fields@[2].0@ == key_size() && fields@[2].1 is Number
            &&& fields@[2].1->Number_0@ == digits_of(f.size as nat)
            &&& fields@[3].0@ == key_time() && fields@[3].1 is Number
            &&& fields@[3].1->Number_0@ == timestamp_text(f.time_ms as nat)
        },
        _ => false,
    }
}

/// `j` is the written form of the history `h`: an object of `entries`, the
/// written files newest first, and `selected`.
pub open spec fn history_encodes(j: Json, h: HistoryV) -> bool {
    match j {
        Json::Object(fields) => {
            &&& fields@.len() == 2
            &&& fields@[0].0@ == key_entries() && fields@[0].1 is Array
            &&& fields@[0].1->Array_0@.len() == h.entries.len()
            &&& forall|i: int|
                0 <= i < h.entries.len() ==> file_encodes(
                    #[trigger] fields@[0].1->Array_0@[i],
                    h.entries[i],
                )
            &&& fields@[1].0@ == key_selected() && fields@[1].1 is Number
            &&& fields@[1].1->Number_0@ == digits_of(h.selected)
        },
        _ => false,
    }
}

proof fn lemma_field_at(fields: Seq<(String, Json)>, key: Seq<char>, k: int)
    requires
        0 <= k < fields.len(),
        fields[k].0@ == key,
        forall|i: int| 0 <= i < k ==> (#[trigger] fields[i]).0@ != key,
    ensures
        field_of(fields, key) == Some(fields[k].1),
    decreases k,
{
    if k > 0 {
        lemma_field_at(fields.drop_first(), key, k - 1);
    }
}

proof fn lemma_field_absent(fields: Seq<(String, Json)>, key: Seq<char>)
    requires
        forall|i: int| 0 <= i < fields.len() ==> (#[trigger] fields[i]).0@ != key,
    ensures
        field_of(fields, key) is None,
    decreases fields.len(),
{
    if fields.len() > 0 {
        assert(fields[0].0@ != key);
        lemma_field_absent(fields.drop_first(), key);
    }
}

/// A file read back from its written form is the same file.
pub proof fn lemma_file_round_trip(j: Json, f: FileStateV)
    requires
        file_encodes(j, f),
    ensures
        file_of(j) == Some(f),
{
    let fields = j->Object_0@;
    assert(key_path() != key_name());
    assert(key_path() != key_size());
    assert(key_path() != key_time());
    assert(key_name() != key_size());
    assert(key_name() != key_time());
    assert(key_size() != key_time());
    lemma_field_at(fields, key_path(), 0);
    lemma_field_at(fields, key_name(), 1);
    lemma_field_at(fields, key_size(), 2);
    lemma_field_at(fields, key_time(), 3);
    crate::number::lemma_integer_round_trip(f.size);
    crate::number::lemma_timestamp_round_trip(f.time_ms);
}

proof fn lemma_files_round_trip(items: Seq<Json>, files: Seq<FileStateV>)
    requires
        items.len() == files.len(),
        forall|i: int| 0 <= i < files.len() ==> file_encodes(#[trigger] items[i], files[i]),
    ensures
        files_of(items) == Some(files),
    decreases items.len(),
{
    if items.len() > 0 {
        let n = items.len() - 1;
        assert forall|i: int| 0 <= i < n implies file_encodes(
            #[trigger] items.drop_last()[i],
            files.drop_last()[i],
        ) by {
            assert(items.drop_last()[i] == items[i]);
        }
        lemma_files_round_trip(items.drop_last(), files.drop_last());
        assert(file_encodes(items[n], files[n]));
        lemma_file_round_trip(items.last(), files.last());
        assert(files.drop_last().push(files.last()) =~= files);
    } else {
        assert(files =~= Seq::<FileStateV>::empty());
    }
}

/// A history read back from its written form is the same history.
pub proof fn lemma_history_round_trip(j: Json, h: HistoryV)
    requires
        history_encodes(j, h),
        h.selected <= usize::MAX,
    ensures
        history_of(j) == h,
{
    let fields = j->Object_0@;
    assert(key_entries() != key_selected());
    lemma_field_at(fields, key_entries(), 0);
    lemma_field_at(fields, key_selected(), 1);
    crate::number::lemma_integer_round_trip(h.selected as u64);
    let items = fields[0].1->Array_0@;
    assert forall|i: int| 0 <= i < h.entries.len() implies file_encodes(
        #[trigger] items[i],
        h.entries[i],
    ) by {
        assert(file_encodes(fields[0].1->Array_0@[i], h.entries[i]));
    }
    lemma_files_round_trip(items, h.entries);
}

/// A document in the older single-file layout reads as a history of that one
/// file, selected.
pub proof fn lemma_legacy_document(j: Json, f: FileStateV)
    requires
        file_encodes(j, f),
    ensures
        history_of(j) == (HistoryV { entries: seq![f], selected: 0 }),
{
    let fields = j->Object_0@;
    assert forall|i: int| 0 <= i < fields.len() implies (#[trigger] fields[i]).0@
        != key_entries() by {
        assert(fields[i].0@.len() != key_entries().len());
    }
    lemma_field_absent(fields, key_entries());
    lemma_file_round_trip(j, f);
}

/// What an optional history is, as plain values.
pub open spec fn history_view(r: Option<HistoryState>) -> Option<HistoryV> {
    match r {
        Some(h) => Some(h@),
        None => None,
    }
}

/// What an optional file is, as plain values.
pub open spec fn file_view(r: Option<FileState>) -> Option<FileStateV> {
    match r {
        Some(f) => Some(f@),
        None => None,
    }
}

/// The field `key` of an object.
pub fn find_member<'a>(j: &'a Json, key: &str) -> (r: Option<&'a Json>)
    ensures
        match r {
            Some(v) => member(*j, key@) == Some(*v),
            None => member(*j, key@) is None,
        },
{
    match j {
        Json::Object(fields) => {
            let n = fields.len();
            let mut i: usize = 0;
            assert(fields@.skip(0) =~= fields@);
            while i < n
                invariant
                    n == fields@.len(),
                    i <= n,
                    member(*j, key@) == field_of(fields@, key@),
                    field_of(fields@, key@) == field_of(fields@.skip(i as int), key@),
                decreases n - i,
            {
                let ghost rest = fields@.skip(i as int);
                assert(rest[0] == fields@[i as int]);
                assert(rest.drop_first() =~= fields@.skip(i + 1));
                if crate::text::same_text(fields[i].0.as_str(), key) {
                    assert(field_of(rest, key@) == Some(rest[0].1));
                    return Some(&fields[i].1);
                }
                i = i + 1;
            }
            None
        },
        _ => None,
    }
}

fn text_field(j: &Json, key: &str) -> (r: Option<String>)
    ensures
        match r {
            Some(t) => text_member(*j, key@) == Some(t@),
            None => text_member(*j, key@) is None,
        },
{
    match find_member(j, key) {
        Some(Json::Text(t)) => Some(t.clone()),
        _ => None,
    }
}

fn integer_field(j: &Json, key: &str) -> (r: Option<u64>)
    ensures
        r == integer_member(*j, key@),
{
    match find_member(j, key) {
        Some(Json::Number(t)) => parse_integer(t.as_str()),
        _ => None,
    }
}

fn timestamp_field(j: &Json, key: &str) -> (r: Option<u64>)
    ensures
        r == timestamp_member(*j, key@),
{
    match find_member(j, key) {
        Some(Json::Number(t)) => parse_timestamp(t.as_str()),
        _ => None,
    }
}

/// The file that an object describes.
pub fn decode_file(j: &Json) -> (r: Option<FileState>)
    ensures
        file_view(r) == file_of(*j),
{
    proof {
        reveal_strlit("path");
        reveal_strlit("name");
        reveal_strlit("size");
        reveal_strlit("time");
        assert("path"@ =~= key_path());
        assert("name"@ =~= key_name());
        assert("size"@ =~= key_size());
        assert("time"@ =~= key_time());
    }
    let path = text_field(j, "path");
    let name = text_field(j, "name");
    let size = integer_field(j, "size");
    let time_ms = timestamp_field(j, "time");
    match (path, name, size, time_ms) {
        (Some(path), Some(name), Some(size), Some(time_ms)) => Some(
            FileState { path, name, size, time_ms },
        ),
        _ => None,
    }
}

/// The history that a document holds in the current layout.
pub fn decode_current(j: &Json) -> (r: Option<HistoryState>)
    ensures
        history_view(r) == current_of(*j),
{
    proof {
        reveal_strlit("entries");
        reveal_strlit("selected");
        assert("entries"@ =~= key_entries());
        assert("selected"@ =~= key_selected());
    }
    let items = match find_member(j, "entries") {
        Some(Json::Array(items)) => items,
        _ => return None,
    };
    let selected = match integer_field(j, "selected") {
        Some(sel) => sel,
        None => return None,
    };
    if selected > usize::MAX as u64 {
        return None;
    }
    let n = items.len();
    let mut entries: Vec<FileState> = Vec::new();
    let mut i: usize = 0;
    while i < n
        invariant
            n == items@.len(),
            i <= n,
            member(*j, key_entries()) == Some(Json::Array(*items)),
            integer_member(*j, key_selected()) == Some(selected),
            selected <= usize::MAX,
            files_of(items@.take(i as int)) == Some(crate::history::views_of(entries@)),
        decreases n - i,
    {
        let ghost before = entries@;
        assert(items@.take(i + 1).drop_last() =~= items@.take(i as int));
        assert(items@.take(i + 1).last() == items@[i as int]);
        match decode_file(&items[i]) {
            Some(f) => {
                entries.push(f);
                assert(crate::history::views_of(entries@) =~= crate::history::views_of(
                    before,
                ).push(f@));
            },
            None => {
                proof {
                    lemma_files_prefix_none(items@, i as int);
                }
                return None;
            },
        }
        i = i + 1;
    }
    assert(items@.take(n as int) =~= items@);
    Some(HistoryState { entries, selected: selected as usize })
}

proof fn lemma_files_prefix_none(items: Seq<Json>, k: int)
    requires
        0 <= k < items.len(),
        file_of(items[k]) is None,
    ensures
        files_of(items) is None,
    decreases items.len(),
{
    if k < items.len() - 1 {
        lemma_files_prefix_none(items.drop_last(), k);
    }
}

/// The history that a document holds in the older single-file layout.
pub fn decode_legacy(j: &Json) -> (r: Option<HistoryState>)
    ensures
        history_view(r) == legacy_of(*j),
{
    match decode_file(j) {
        Some(f) => {
            let mut entries: Vec<FileState> = Vec::new();
            entries.push(f);
            let r = HistoryState { entries, selected: 0 };
            assert(r@.entries =~= seq![f@]);
            Some(r)
        },
        None => None,
    }
}

/// The history that a document holds: the current layout, else the older
/// layout, else the empty history. A damaged document is never an error.
pub fn parse_history(j: &Json) -> (r: HistoryState)
    ensures
        r@ == history_of(*j),
{
    if let Some(h) = decode_current(j) {
        return h;
    }
    if let Some(h) = decode_legacy(j) {
        return h;
    }
    let r = HistoryState::new();
    assert(r@.entries =~= Seq::<crate::history::FileStateV>::empty());
    r
}

fn field(key: &str, value: Json) -> (r: (String, Json))
    ensures
        r.0@ == key@,
        r.1 == value,
{
    (String::from_str(key), value)
}

/// The written form of a file.
pub fn encode_file(f: &FileState) -> (r: Json)
    ensures
        file_encodes(r, f@),
{
    proof {
        reveal_strlit("path");
        reveal_strlit("name");
        reveal_strlit("size");
        reveal_strlit("time");
        assert("path"@ =~= key_path());
        assert("name"@ =~= key_name());
        assert("size"@ =~= key_size());
        assert("time"@ =~= key_time());
    }
    let mut fields: Vec<(String, Json)> = Vec::new();
    fields.push(field("path", Json::Text(f.path.clone())));
    fields.push(field("name", Json::Text(f.name.clone())));
    fields.push(field("size", Json::Number(format_integer(f.size))));
    fields.push(field("time", Json::Number(format_timestamp(f.time_ms))));
    Json::Object(fields)
}

/// The written form of a history.
pub fn encode_history(h: &HistoryState) -> (r: Json)
    ensures
        history_encodes(r, h@),
{
    proof {
        reveal_strlit("entries");
        reveal_strlit("selected");
        assert("entries"@ =~= key_entries());
        assert("selected"@ =~= key_selected());
    }
    let n = h.entries.len();
    let mut items: Vec<Json> = Vec::new();
    let mut i: usize = 0;
    while i < n
        invariant
            n == h.entries@.len(),
            i <= n,
            items@.len() == i,
            forall|k: int| 0 <= k < i ==> file_encodes(#[trigger] items@[k], h@.entries[k]),
        decreases n - i,
    {
        items.push(encode_file(&h.entries[i]));
        i = i + 1;
    }
    let mut fields: Vec<(String, Json)> = Vec::new();
    fields.push(field("entries", Json::Array(items)));
    fields.push(field("selected", Json::Number(format_integer(h.selected as u64))));
    Json::Object(fields)
}

/// One read-modify-write of the store on a document: read the history it
/// holds (or the empty one), apply `m`, and give the document to write back.
pub fn mutate_document(doc: &Json, m: Mutation) -> (r: Json)
    ensures
        history_encodes(r, applied(history_of(*doc), m)),
{
    let mut h = parse_history(doc);
    h.apply(m);
    encode_history(&h)
}

proof fn lemma_files_len(items: Seq<Json>)
    ensures
        files_of(items) matches Some(fs) ==> fs.len() == items.len(),
    decreases items.len(),
{
    if items.len() > 0 {
        lemma_files_len(items.drop_last());
    }
}

/// What a document holds fits a history in memory.
proof fn lemma_history_of_fits(j: Json)
    ensures
        history_of(j).selected <= usize::MAX,
        history_of(j).entries.len() <= usize::MAX,
{
    match member(j, key_entries()) {
        Some(Json::Array(items)) => {
            assert(items.len() == items@.len());
            lemma_files_len(items@);
        },
        _ => {},
    }
}

/// A change keeps a history within what memory can index.
proof fn lemma_applied_fits(h: HistoryV, m: Mutation)
    requires
        h.selected <= usize::MAX,
        h.entries.len() <= usize::MAX,
    ensures
        applied(h, m).selected <= usize::MAX,
        applied(h, m).entries.len() <= usize::MAX,
{
}

/// Changes made one after the other through the store compose: each one
/// reads back exactly what the one before it wrote, so no change is lost.
pub proof fn lemma_store_steps_compose(
    doc: Json,
    first: Json,
    second: Json,
    m1: Mutation,
    m2: Mutation,
)
    requires
        history_encodes(first, applied(history_of(doc), m1)),
        history_encodes(second, applied(history_of(first), m2)),
    ensures
        history_of(first) == applied(history_of(doc), m1),
        history_of(second) == applied(applied(history_of(doc), m1), m2),
{
    lemma_history_of_fits(doc);
    lemma_applied_fits(history_of(doc), m1);
    lemma_history_round_trip(first, applied(history_of(doc), m1));
    lemma_history_of_fits(first);
    lemma_applied_fits(history_of(first), m2);
    lemma_history_round_trip(second, applied(history_of(first), m2));
}

} // verus!
