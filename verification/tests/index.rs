use fuzzy5e::client::{Message, ResponseMessage};
use fuzzy5e::index::{
    done_answer, ids_answer, push_request, query_request, Index, IndexError, ToBytes,
    QUERY_BUCKET,
};
use fuzzy5e::tantivy::{
    BulkStep, Document, FieldKind, OpenMode, SearchOutcome, Tantivy, TantivyOptions, BULK_COUNT,
    NGRAM_MAX, NGRAM_MIN, RESULT_LIMIT, TOKEN_LENGTH_LIMIT, WRITER_HEAP_BYTES,
};

fn layout() -> Tantivy {
    Tantivy::new(TantivyOptions::default())
}

fn tuple(c: &str, f: &str, id: &str, t: &str) -> (String, String, String, String) {
    (String::from(c), String::from(f), String::from(id), String::from(t))
}

fn entries(doc: &Document) -> Vec<(String, String)> {
    let mut out = Vec::new();
    for field in ["id", "type", "mtype", "name_ng", "name", "desc", "doc"] {
        if let Some(text) = doc.get_first(field) {
            out.push((String::from(field), String::from(text)));
        }
    }
    out
}

#[test]
fn default_options_open_the_index_under_the_working_directory() {
    let options = TantivyOptions::default();
    assert_eq!(options.index_dir, "./index/");
    assert!(!options.rebuild);
    assert_eq!(options.to_string(), "./index/");
}

#[test]
fn a_layout_keeps_its_options() {
    let index = Tantivy::new(TantivyOptions {
        index_dir: String::from("/tmp/idx"),
        rebuild: true,
    });
    assert_eq!(index.options().index_dir, "/tmp/idx");
    assert!(index.options().rebuild);
    assert_eq!(index.to_string(), "/tmp/idx");
    let copy = index.clone();
    assert_eq!(copy.options().index_dir, "/tmp/idx");
    assert!(copy.options().rebuild);
}

#[test]
fn an_index_is_created_only_when_it_is_rebuilt() {
    assert_eq!(layout().open_mode(), OpenMode::OpenOrCreate);
    let rebuilt = Tantivy::new(TantivyOptions {
        index_dir: String::from("./index/"),
        rebuild: true,
    });
    assert_eq!(rebuilt.open_mode(), OpenMode::Create);
}

#[test]
fn the_schema_has_seven_fields() {
    let index = layout();
    let fields: Vec<(String, FieldKind)> = index
        .schema_fields()
        .iter()
        .map(|f| (f.name.clone(), f.kind))
        .collect();
    assert_eq!(
        fields,
        vec![
            (String::from("id"), FieldKind::Stored),
            (String::from("type"), FieldKind::Stored),
            (String::from("mtype"), FieldKind::Stored),
            (String::from("name_ng"), FieldKind::Ngram),
            (String::from("name"), FieldKind::Text),
            (String::from("desc"), FieldKind::Text),
            (String::from("doc"), FieldKind::Stored),
        ]
    );
    assert_eq!(index.field_kind("name"), Some(FieldKind::Text));
    assert_eq!(index.field_kind("name_ng"), Some(FieldKind::Ngram));
    assert_eq!(index.field_kind("doc"), Some(FieldKind::Stored));
    assert_eq!(index.field_kind("title"), None);
    assert_eq!(index.field_kind(""), None);
}

#[test]
fn the_limits_of_the_index() {
    assert_eq!(BULK_COUNT, 100);
    assert_eq!(RESULT_LIMIT, 30);
    assert_eq!(WRITER_HEAP_BYTES, 50_000_000);
    assert_eq!((NGRAM_MIN, NGRAM_MAX), (2, 10));
    assert_eq!(TOKEN_LENGTH_LIMIT, 40);
}

#[test]
fn a_document_returns_the_first_text_under_a_field() {
    let mut doc = Document::new();
    assert_eq!(doc.len(), 0);
    assert_eq!(doc.get_first("name"), None);
    doc.add_text("name", "Fireball");
    doc.add_text("desc", "A bright streak");
    doc.add_text("desc", "The fire spreads");
    assert_eq!(doc.len(), 3);
    assert_eq!(doc.get_first("name"), Some("Fireball"));
    assert_eq!(doc.get_first("desc"), Some("A bright streak"));
    assert_eq!(doc.get_first("id"), None);
}

#[test]
fn a_value_becomes_a_document() {
    let tuples = vec![
        tuple("spells", "name", "abc", "Fireball"),
        tuple("spells", "desc", "abc", "A bright streak"),
        tuple("spells", "desc", "abc", "The fire spreads"),
    ];
    let doc = layout()
        .idx_to_doc(&tuples, "spell", &[0x00, 0x1f, 0xa0, 0xff])
        .expect("the tuples fit the schema");
    assert_eq!(doc.len(), 7);
    assert_eq!(
        entries(&doc),
        vec![
            (String::from("id"), String::from("abc")),
            (String::from("mtype"), String::from("spell")),
            (String::from("name_ng"), String::from("Fireball")),
            (String::from("name"), String::from("Fireball")),
            (String::from("desc"), String::from("A bright streak")),
            (String::from("doc"), String::from("001fa0ff")),
        ]
    );
}

#[test]
fn the_identifier_comes_from_the_first_tuple_only() {
    let tuples = vec![
        tuple("monsters", "type", "m1", "Dragon"),
        tuple("monsters", "name", "m2", "Dragon"),
    ];
    let doc = layout().idx_to_doc(&tuples, "monster", b"").unwrap();
    assert_eq!(doc.len(), 6);
    assert_eq!(doc.get_first("id"), Some("m1"));
    assert_eq!(doc.get_first("type"), Some("Dragon"));
    assert_eq!(doc.get_first("name_ng"), Some("Dragon"));
    assert_eq!(doc.get_first("doc"), Some(""));
}

#[test]
fn a_value_without_tuples_has_type_and_bytes_only() {
    let doc = layout().idx_to_doc(&Vec::new(), "odd", b"kiwi").unwrap();
    assert_eq!(doc.len(), 2);
    assert_eq!(doc.get_first("mtype"), Some("odd"));
    assert_eq!(doc.get_first("doc"), Some("6b697769"));
}

#[test]
fn a_tuple_for_an_unknown_field_cannot_be_indexed() {
    let tuples = vec![
        tuple("spells", "name", "abc", "Fireball"),
        tuple("spells", "level", "abc", "3"),
    ];
    assert_eq!(
        layout().idx_to_doc(&tuples, "spell", b"x").err(),
        Some(IndexError::ProcessingError)
    );
}

struct Pebble;

impl ToBytes for Pebble {
    fn to_bytes(&self) -> Vec<u8> {
        vec![1, 2, 3, 15, 16]
    }
}

impl Index for Pebble {
    fn id(&self) -> String {
        String::from("pebble-1")
    }
    fn mtype(&self) -> String {
        String::from("pebble")
    }
    fn tuples(&self) -> Vec<(String, String, String, String)> {
        vec![tuple("pebbles", "name", "pebble-1", "Round")]
    }
}

#[test]
fn an_indexable_value_is_asked_for_its_parts() {
    let doc = layout().index_document(&Pebble).unwrap();
    assert_eq!(doc.get_first("id"), Some("pebble-1"));
    assert_eq!(doc.get_first("mtype"), Some("pebble"));
    assert_eq!(doc.get_first("doc"), Some("0102030f10"));
    assert_eq!(doc.get_first("name"), Some("Round"));
}

#[test]
fn a_bulk_load_commits_after_the_first_and_every_hundredth_value() {
    let index = layout();
    assert_eq!(index.index_bulk(0), vec![BulkStep::FinalCommit]);
    assert_eq!(
        index.index_bulk(2),
        vec![
            BulkStep::Add(0),
            BulkStep::Commit,
            BulkStep::Add(1),
            BulkStep::FinalCommit
        ]
    );
    let steps = index.index_bulk(201);
    let commits: Vec<usize> = steps
        .iter()
        .enumerate()
        .filter(|(_, s)| **s == BulkStep::Commit)
        .map(|(i, _)| i)
        .collect();
    assert_eq!(commits, vec![1, 102, 203]);
    assert_eq!(steps[101], BulkStep::Add(100));
    assert_eq!(steps[202], BulkStep::Add(200));
    assert_eq!(steps.len(), 201 + 3 + 1);
    assert_eq!(steps.last(), Some(&BulkStep::FinalCommit));
}

#[test]
fn a_bulk_load_fails_with_its_last_commit() {
    assert_eq!(layout().bulk_outcome(true), Ok(()));
    assert_eq!(
        layout().bulk_outcome(false),
        Err(IndexError::ProcessingError)
    );
}

fn stored(id: &str, mtype: Option<&str>, doc: Option<&str>) -> Document {
    let mut d = Document::new();
    d.add_text("id", id);
    if let Some(m) = mtype {
        d.add_text("mtype", m);
    }
    if let Some(text) = doc {
        d.add_text("doc", text);
    }
    d
}

#[test]
fn a_failed_search_is_an_error() {
    assert_eq!(
        layout().do_query(SearchOutcome::QueryRejected, RESULT_LIMIT).err(),
        Some(IndexError::ProcessingError)
    );
    assert_eq!(
        layout().do_query(SearchOutcome::SearchFailed, RESULT_LIMIT).err(),
        Some(IndexError::ProcessingError)
    );
}

#[test]
fn hits_that_cannot_be_loaded_are_passed_over() {
    let hits = vec![
        Some(stored("a", None, None)),
        None,
        Some(stored("b", None, None)),
        None,
        Some(stored("c", None, None)),
    ];
    let docs = layout()
        .do_query(SearchOutcome::Hits(hits), RESULT_LIMIT)
        .unwrap();
    let ids: Vec<&str> = docs.iter().map(|d| d.get_first("id").unwrap()).collect();
    assert_eq!(ids, vec!["a", "b", "c"]);
    assert!(layout()
        .do_query(SearchOutcome::Hits(Vec::new()), RESULT_LIMIT)
        .unwrap()
        .is_empty());
}

#[test]
fn no_more_hits_than_the_limit_are_looked_at() {
    let hits = || {
        vec![
            None,
            Some(stored("a", None, None)),
            Some(stored("b", None, None)),
            Some(stored("c", None, None)),
        ]
    };
    let ids = |limit| -> Vec<String> {
        layout()
            .do_query(SearchOutcome::Hits(hits()), limit)
            .unwrap()
            .iter()
            .map(|d| String::from(d.get_first("id").unwrap()))
            .collect()
    };
    assert_eq!(ids(0), Vec::<String>::new());
    assert_eq!(ids(1), Vec::<String>::new());
    assert_eq!(ids(2), vec!["a"]);
    assert_eq!(ids(3), vec!["a", "b"]);
    assert_eq!(ids(4), vec!["a", "b", "c"]);
    assert_eq!(ids(30), vec!["a", "b", "c"]);
}

#[test]
fn a_query_yields_types_and_bytes() {
    let docs = vec![
        stored("a", Some("spell"), Some("6b697769")),
        stored("b", None, Some("00")),
        stored("c", Some("monster"), None),
        stored("d", Some("monster"), Some("0A0b")),
        stored("e", Some("class"), Some("")),
    ];
    assert_eq!(
        layout().query(&docs),
        Ok(vec![
            (String::from("spell"), b"kiwi".to_vec()),
            (String::from("monster"), vec![10, 11]),
            (String::from("class"), Vec::new()),
        ])
    );
}

#[test]
fn stored_text_that_is_not_hexadecimal_is_an_error() {
    for bad in ["6b6", "zz", "6b 69", "é0"] {
        let docs = vec![
            stored("a", Some("spell"), Some("00")),
            stored("b", Some("spell"), Some(bad)),
        ];
        assert_eq!(layout().query(&docs), Err(IndexError::ProcessingError));
    }
}

#[test]
fn bytes_come_back_as_they_were_stored() {
    let all: Vec<u8> = (0..=255).collect();
    let doc = layout().idx_to_doc(&Vec::new(), "bytes", &all).unwrap();
    let text = doc.get_first("doc").unwrap();
    assert_eq!(text.len(), 512);
    assert!(text.starts_with("000102030405060708090a0b0c0d0e0f10"));
    assert!(text.ends_with("fdfeff"));
    assert_eq!(
        layout().query(&vec![doc]),
        Ok(vec![(String::from("bytes"), all)])
    );
}

#[test]
fn a_query_for_identifiers_yields_them_in_order() {
    let docs = vec![
        stored("spells:1", None, None),
        stored("monsters:7", None, None),
    ];
    assert_eq!(
        layout().query_ids(&docs),
        Ok(vec![String::from("spells:1"), String::from("monsters:7")])
    );
    assert_eq!(layout().query_ids(&Vec::new()), Ok(Vec::new()));
    let mut nameless = Document::new();
    nameless.add_text("name", "x");
    assert_eq!(
        layout().query_ids(&vec![stored("a", None, None), nameless]),
        Err(IndexError::ProcessingError)
    );
}

#[test]
fn index_errors_are_named() {
    assert_eq!(IndexError::ProcessingError.to_string(), "ProcessingError");
}

fn response(line: &str) -> ResponseMessage {
    ResponseMessage::parse(String::from(line)).expect("a response")
}

#[test]
fn a_tuple_is_pushed_under_its_field_and_identifier() {
    let t = tuple("spells", "desc", "5f0c", "A bright streak");
    assert_eq!(
        push_request(&t).to_string(),
        "PUSH spells desc 5f0c \"A bright streak\""
    );
}

#[test]
fn a_query_is_put_to_the_names() {
    assert_eq!(QUERY_BUCKET, "name");
    assert_eq!(
        query_request("all", "fire ball").to_string(),
        "QUERY all name \"fire ball\""
    );
}

#[test]
fn the_answer_to_a_query_is_an_event() {
    assert_eq!(
        ids_answer(response("EVENT QUERY q1 spells:1 monsters:7")),
        Ok(vec![String::from("spells:1"), String::from("monsters:7")])
    );
    assert_eq!(ids_answer(response("EVENT SUGGEST q1")), Ok(Vec::new()));
    for other in ["OK", "ERR", "RESULT 3", "PENDING q1", "STARTED", "ENDED", "CONNECTED"] {
        assert_eq!(
            ids_answer(response(other)),
            Err(IndexError::ProcessingError)
        );
    }
}

#[test]
fn a_push_is_done_on_ok_and_result() {
    assert_eq!(done_answer(&response("OK")), Ok(()));
    assert_eq!(done_answer(&response("RESULT 12")), Ok(()));
    for other in ["ERR", "EVENT QUERY q1", "PENDING q1", "STARTED", "ENDED", "CONNECTED"] {
        assert_eq!(
            done_answer(&response(other)),
            Err(IndexError::ProcessingError)
        );
    }
}
