use fuzzy5e::client::{
    frame, ClientError, ClientOptions, EventKind, IngestRequestMessage, Message, Mode,
    RequestMessage, ResponseMessage, SearchRequestMessage,
};
use fuzzy5e::text::{is_space, split_line, split_words};

fn parse(line: &str) -> Result<ResponseMessage, ClientError> {
    ResponseMessage::parse(String::from(line))
}

#[test]
fn start_encodes_mode_and_credential() {
    let m = RequestMessage::Start(Mode::Search, "secret");
    assert_eq!(m.to_string(), "START search secret");
}

#[test]
fn start_encodes_each_mode() {
    assert_eq!(RequestMessage::Start(Mode::Control, "pw").to_string(), "START control pw");
    assert_eq!(RequestMessage::Start(Mode::Ingest, "pw").to_string(), "START ingest pw");
    assert_eq!(Mode::Search.to_string(), "search");
    assert_eq!(Mode::Control.to_string(), "control");
    assert_eq!(Mode::Ingest.to_string(), "ingest");
}

#[test]
fn quit_encodes_to_its_word() {
    assert_eq!(RequestMessage::Quit.to_string(), "QUIT");
}

#[test]
fn push_quotes_its_text() {
    let m = IngestRequestMessage::Push("c", "b", "o", "hello world");
    assert_eq!(m.to_string(), "PUSH c b o \"hello world\"");
}

#[test]
fn flushc_names_its_collection() {
    assert_eq!(IngestRequestMessage::Flushc("spells").to_string(), "FLUSHC spells");
}

#[test]
fn query_quotes_its_terms() {
    let m = SearchRequestMessage::Query("all", "default", "fire ball");
    assert_eq!(m.to_string(), "QUERY all default \"fire ball\"");
}

#[test]
fn empty_fields_are_written_as_they_are() {
    assert_eq!(RequestMessage::Start(Mode::Search, "").to_string(), "START search ");
    assert_eq!(IngestRequestMessage::Push("", "", "", "").to_string(), "PUSH    \"\"");
}

#[test]
fn frame_ends_the_line() {
    assert_eq!(frame(&RequestMessage::Quit), "QUIT\r\n");
    assert_eq!(
        frame(&SearchRequestMessage::Query("c", "b", "q")),
        "QUERY c b \"q\"\r\n"
    );
    assert_eq!(
        frame(&RequestMessage::Start(Mode::Search, "secret")),
        "START search secret\r\n"
    );
}

#[test]
fn default_options_point_at_the_local_server() {
    let options = ClientOptions::default();
    assert_eq!(options.addr, "[::1]:1491");
    assert_eq!(options.password, "SecretPassword");
    assert_eq!(options.mode, Mode::Search);
    assert_eq!(
        options.start_request().to_string(),
        "START search SecretPassword"
    );
}

#[test]
fn bare_words_parse_to_their_variants() {
    assert!(matches!(parse("CONNECTED"), Ok(ResponseMessage::Connected)));
    assert!(matches!(parse("STARTED"), Ok(ResponseMessage::Started)));
    assert!(matches!(parse("ENDED"), Ok(ResponseMessage::Ended)));
    assert!(matches!(parse("RESULT"), Ok(ResponseMessage::Result)));
    assert!(matches!(parse("OK"), Ok(ResponseMessage::Okay)));
    assert!(matches!(parse("ERR"), Ok(ResponseMessage::Error)));
}

#[test]
fn fields_after_a_bare_word_are_ignored() {
    assert!(matches!(
        parse("CONNECTED <sonic-server v1.2.3>"),
        Ok(ResponseMessage::Connected)
    ));
    assert!(matches!(
        parse("STARTED search protocol(1) buffer(20000)"),
        Ok(ResponseMessage::Started)
    ));
    assert!(matches!(parse("ENDED quit"), Ok(ResponseMessage::Ended)));
    assert!(matches!(parse("ERR unknown_command"), Ok(ResponseMessage::Error)));
}

#[test]
fn pending_carries_its_id_and_line() {
    match parse("PENDING Bt2m2gYa") {
        Ok(ResponseMessage::Pending(p)) => {
            assert_eq!(p.id(), "Bt2m2gYa");
            assert_eq!(p.raw(), "PENDING Bt2m2gYa");
        }
        other => panic!("unexpected {:?}", other),
    }
}

#[test]
fn event_carries_kind_id_data_and_line() {
    let line = "EVENT QUERY Bt2m2gYa spells:1 spells:2 monsters:9";
    match parse(line) {
        Ok(ResponseMessage::Event(e)) => {
            assert_eq!(e.kind, EventKind::Query);
            assert_eq!(e.id, "Bt2m2gYa");
            assert_eq!(e.data, vec!["spells:1", "spells:2", "monsters:9"]);
            assert_eq!(e.raw(), line);
            assert_eq!(e.kind(), EventKind::Query);
            assert_eq!(e.id(), "Bt2m2gYa");
            assert_eq!(e.data().len(), 3);
        }
        other => panic!("unexpected {:?}", other),
    }
}

#[test]
fn event_without_data_has_none() {
    match parse("EVENT SUGGEST z98uDE0f") {
        Ok(ResponseMessage::Event(e)) => {
            assert_eq!(e.kind, EventKind::Suggest);
            assert_eq!(e.id, "z98uDE0f");
            assert!(e.data.is_empty());
        }
        other => panic!("unexpected {:?}", other),
    }
}

#[test]
fn event_kind_is_read_from_its_word() {
    assert_eq!(EventKind::parse("QUERY"), Some(EventKind::Query));
    assert_eq!(EventKind::parse("SUGGEST"), Some(EventKind::Suggest));
    assert_eq!(EventKind::parse("query"), None);
    assert_eq!(EventKind::parse(""), None);
}

#[test]
fn unknown_leading_token_is_a_parse_error() {
    assert!(matches!(
        parse("BOGUS foo"),
        Err(ClientError::ProtocolParseError)
    ));
    assert!(matches!(parse("ok"), Err(ClientError::ProtocolParseError)));
    assert!(matches!(parse("OKAY"), Err(ClientError::ProtocolParseError)));
    assert!(matches!(parse(""), Err(ClientError::ProtocolParseError)));
    assert!(matches!(parse("   "), Err(ClientError::ProtocolParseError)));
    assert!(matches!(parse("\t\r\n"), Err(ClientError::ProtocolParseError)));
    assert!(matches!(parse("O K"), Err(ClientError::ProtocolParseError)));
}

#[test]
fn incomplete_lines_are_parse_errors() {
    assert!(matches!(parse("PENDING"), Err(ClientError::ProtocolParseError)));
    assert!(matches!(parse("EVENT"), Err(ClientError::ProtocolParseError)));
    assert!(matches!(
        parse("EVENT QUERY"),
        Err(ClientError::ProtocolParseError)
    ));
    assert!(matches!(
        parse("EVENT OTHER abc def"),
        Err(ClientError::ProtocolParseError)
    ));
}

fn event(line: &str) -> (EventKind, String, Vec<String>, String) {
    match parse(line) {
        Ok(ResponseMessage::Event(e)) => (e.kind, e.id.clone(), e.data.clone(), String::from(e.raw())),
        other => panic!("unexpected {:?} for {:?}", other, line),
    }
}

#[test]
fn tokens_are_parted_by_any_run_of_white_space() {
    for line in [
        "EVENT QUERY q1 d1",
        "EVENT  QUERY q1 d1",
        "EVENT\tQUERY\tq1\td1",
        "  EVENT QUERY   q1 \t d1  ",
        "EVENT\u{a0}QUERY\u{2003}q1\u{3000}d1",
        "EVENT QUERY q1 d1\r\n",
    ] {
        assert_eq!(
            event(line),
            (
                EventKind::Query,
                String::from("q1"),
                vec![String::from("d1")],
                String::from(line)
            )
        );
    }
}

#[test]
fn white_space_makes_no_empty_token() {
    match parse("PENDING   abc  ") {
        Ok(ResponseMessage::Pending(p)) => {
            assert_eq!(p.id(), "abc");
            assert_eq!(p.raw(), "PENDING   abc  ");
        }
        other => panic!("unexpected {:?}", other),
    }
    assert!(matches!(parse("PENDING "), Err(ClientError::ProtocolParseError)));
    assert!(matches!(parse("PENDING \t "), Err(ClientError::ProtocolParseError)));
    assert!(matches!(parse("EVENT QUERY  "), Err(ClientError::ProtocolParseError)));
    assert_eq!(event("EVENT QUERY id  x").2, vec!["x"]);
    assert!(event("EVENT  SUGGEST id ").2.is_empty());
    assert!(matches!(parse(" OK"), Ok(ResponseMessage::Okay)));
    assert!(matches!(parse("\tERR\t"), Ok(ResponseMessage::Error)));
    assert!(matches!(parse(" STARTED search"), Ok(ResponseMessage::Started)));
}

#[test]
fn words_are_the_runs_between_white_space() {
    assert_eq!(split_words(""), Vec::<String>::new());
    assert_eq!(split_words(" \t\n"), Vec::<String>::new());
    assert_eq!(split_words("a"), vec!["a"]);
    assert_eq!(split_words(" a  bc "), vec!["a", "bc"]);
    assert_eq!(split_words("a\tb\u{85}c\u{200a}d"), vec!["a", "b", "c", "d"]);
    assert_eq!(split_words("a\u{200b}b"), vec!["a\u{200b}b"]);
    for line in ["EVENT QUERY x  y z", "  ", "a", "", "é ü\t ß", "x ", " x", "\u{1680}x\u{2028}"] {
        let expected: Vec<String> = line.split_whitespace().map(String::from).collect();
        assert_eq!(split_words(line), expected, "for {:?}", line);
    }
}

#[test]
fn white_space_is_what_unicode_says() {
    let mut count = 0;
    for code in 0..=0x10ffffu32 {
        if let Some(c) = char::from_u32(code) {
            assert_eq!(is_space(c), c.is_whitespace(), "for {:x}", code);
            if is_space(c) {
                count += 1;
            }
        }
    }
    assert_eq!(count, 25);
}

#[test]
fn split_yields_one_field_more_than_separators() {
    assert_eq!(split_line("", ' '), vec![""]);
    assert_eq!(split_line("a", ' '), vec!["a"]);
    assert_eq!(split_line("a b", ' '), vec!["a", "b"]);
    assert_eq!(split_line(" a  b ", ' '), vec!["", "a", "", "b", ""]);
    assert_eq!(split_line("spells:12", ':'), vec!["spells", "12"]);
}

#[test]
fn split_agrees_with_the_standard_split() {
    for line in ["EVENT QUERY x y z", "  ", "a", "", "é ü  ß", "x "] {
        let expected: Vec<String> = line.split(' ').map(String::from).collect();
        assert_eq!(split_line(line, ' '), expected);
        assert_eq!(split_line(line, ' ').join(" "), line);
    }
}

#[test]
fn errors_are_named() {
    assert_eq!(ClientError::ProcessingError.to_string(), "ProcessingError");
    assert_eq!(
        ClientError::ProtocolParseError.to_string(),
        "ProtocolParseError"
    );
}

#[test]
fn a_line_joined_from_fields_is_read_as_those_fields() {
    let fields = ["EVENT", "SUGGEST", "z98uDE0f", "fire", "fireball", "firebolt"];
    let line = fields.join(" ");
    match parse(&line) {
        Ok(ResponseMessage::Event(e)) => {
            assert_eq!(e.kind, EventKind::Suggest);
            assert_eq!(e.id, fields[2]);
            assert_eq!(e.data, fields[3..].to_vec());
            assert_eq!(e.raw(), line);
        }
        other => panic!("unexpected {:?}", other),
    }
    for word in ["CONNECTED", "STARTED", "ENDED", "RESULT", "OK", "ERR"] {
        assert!(parse(word).is_ok());
        assert_eq!(split_line(word, ' '), vec![word]);
    }
}
