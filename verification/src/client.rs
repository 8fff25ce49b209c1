//! The message grammar of the wire protocol: how requests are written and
//! how the server's lines are read.

use vstd::prelude::*;
use vstd::string::*;
use crate::text::{is_word, joined, lemma_words_join, split_words, views, words};

verus! {

/// What can go wrong on the caller's side of a session.
#[derive(Clone, Copy, Debug, PartialEq, Eq, Structural)]
pub enum ClientError {
    /// The session can no longer carry the request: its orchestration side
    /// is gone, or it has been disconnected already.
    ProcessingError,
    /// A line from the server does not belong to the response grammar.
    ProtocolParseError,
}

impl ClientError {
    pub open spec fn text(self) -> Seq<char> {
        match self {
            ClientError::ProcessingError => "ProcessingError"@,
            ClientError::ProtocolParseError => "ProtocolParseError"@,
        }
    }

    /// The name of the error.
    pub fn to_string(&self) -> (s: String)
        ensures
            s@ == self.text(),
    {
        match self {
            ClientError::ProcessingError => String::from_str("ProcessingError"),
            ClientError::ProtocolParseError => String::from_str("ProtocolParseError"),
        }
    }
}

/// A request that can be written as one line of the protocol.
pub trait Message {
    /// The line, without its terminator.
    spec fn wire(&self) -> Seq<char>;

    fn to_string(&self) -> (s: String)
        ensures
            s@ == self.wire(),
    ;
}

/// Capability class of a session, fixed when the session starts.
#[derive(Clone, Copy, Debug, PartialEq, Eq, Structural)]
pub enum Mode {
    Search,
    Control,
    Ingest,
}

impl Mode {
    /// The word that stands for this mode on the wire.
    pub open spec fn wire(self) -> Seq<char> {
        match self {
            Mode::Search => "search"@,
            Mode::Control => "control"@,
            Mode::Ingest => "ingest"@,
        }
    }

    /// The mode as it is written in a `START` line.
    pub fn to_string(&self) -> (s: String)
        ensures
            s@ == self.wire(),
    {
        match self {
            Mode::Search => String::from_str("search"),
            Mode::Control => String::from_str("control"),
            Mode::Ingest => String::from_str("ingest"),
        }
    }
}

/// Requests that open and close a session.
pub enum RequestMessage<'a> {
    /// `START <mode> <credential>`
    Start(Mode, &'a str),
    /// `QUIT`
    Quit,
}

impl Message for RequestMessage<'_> {
    open spec fn wire(&self) -> Seq<char> {
        match self {
            RequestMessage::Start(mode, credential) => "START "@ + mode.wire() + " "@
                + credential@,
            RequestMessage::Quit => "QUIT"@,
        }
    }

    fn to_string(&self) -> (s: String) {
        match self {
            RequestMessage::Start(mode, credential) => {
                let mut s = String::from_str("START ");
                let word = mode.to_string();
                s.append(word.as_str());
                s.append(" ");
                s.append(credential);
                s
            },
            RequestMessage::Quit => String::from_str("QUIT"),
        }
    }
}

/// Requests of an ingest session.
pub enum IngestRequestMessage<'a> {
    /// `PUSH <collection> <bucket> <object> "<text>"`
    Push(&'a str, &'a str, &'a str, &'a str),
    /// `FLUSHC <collection>`
    Flushc(&'a str),
}

impl Message for IngestRequestMessage<'_> {
    open spec fn wire(&self) -> Seq<char> {
        match self {
            IngestRequestMessage::Push(collection, bucket, object, text) => "PUSH "@
                + collection@ + " "@ + bucket@ + " "@ + object@ + " \""@ + text@ + "\""@,
            IngestRequestMessage::Flushc(collection) => "FLUSHC "@ + collection@,
        }
    }

    fn to_string(&self) -> (s: String) {
        match self {
            IngestRequestMessage::Push(collection, bucket, object, text) => {
                let mut s = String::from_str("PUSH ");
                s.append(collection);
                s.append(" ");
                s.append(bucket);
                s.append(" ");
                s.append(object);
                s.append(" \"");
                s.append(text);
                s.append("\"");
                s
            },
            IngestRequestMessage::Flushc(collection) => {
                let mut s = String::from_str("FLUSHC ");
                s.append(collection);
                s
            },
        }
    }
}

/// Requests of a search session.
pub enum SearchRequestMessage<'a> {
    /// `QUERY <collection> <bucket> "<query>"`
    Query(&'a str, &'a str, &'a str),
}

impl Message for SearchRequestMessage<'_> {
    open spec fn wire(&self) -> Seq<char> {
        match self {
            SearchRequestMessage::Query(collection, bucket, query) => "QUERY "@ + collection@
                + " "@ + bucket@ + " \""@ + query@ + "\""@,
        }
    }

    fn to_string(&self) -> (s: String) {
        match self {
            SearchRequestMessage::Query(collection, bucket, query) => {
                let mut s = String::from_str("QUERY ");
                s.append(collection);
                s.append(" ");
                s.append(bucket);
                s.append(" \"");
                s.append(query);
                s.append("\"");
                s
            },
        }
    }
}

/// The two characters that end every line on the wire.
pub open spec fn line_end() -> Seq<char> {
    seq!['\r', '\n']
}

/// The request as it is handed to the connection: its line and the line end.
pub fn frame<M: Message>(message: &M) -> (line: String)
    ensures
        line@ == message.wire() + line_end(),
{
    let mut line = message.to_string();
    line.push('\r');
    line.push('\n');
    assert(line@ =~= message.wire() + line_end());
    line
}

/// What an event reports on.
#[derive(Clone, Copy, Debug, PartialEq, Eq, Structural)]
pub enum EventKind {
    Query,
    Suggest,
}

impl EventKind {
    /// The kind that a word of an `EVENT` line names, if it names one.
    pub open spec fn of_word(word: Seq<char>) -> Option<EventKind> {
        if word == "QUERY"@ {
            Some(EventKind::Query)
        } else if word == "SUGGEST"@ {
            Some(EventKind::Suggest)
        } else {
            None
        }
    }

    /// Reads the kind of an event from its word on the wire.
    pub fn parse(word: &str) -> (kind: Option<EventKind>)
        ensures
            kind == EventKind::of_word(word@),
    {
        if word.eq("QUERY") {
            Some(EventKind::Query)
        } else if word.eq("SUGGEST") {
            Some(EventKind::Suggest)
        } else {
            None
        }
    }
}

/// An event line, as a mathematical value.
pub struct EventView {
    pub id: Seq<char>,
    pub kind: EventKind,
    pub data: Seq<Seq<char>>,
    pub raw: Seq<char>,
}

/// A notification from the server that carries data.
#[derive(Debug)]
pub struct Event {
    pub id: String,
    pub kind: EventKind,
    pub data: Vec<String>,
    raw: String,
}

impl View for Event {
    type V = EventView;

    closed spec fn view(&self) -> EventView {
        EventView { id: self.id@, kind: self.kind, data: views(self.data@), raw: self.raw@ }
    }
}

impl Event {
    /// The marker of the request that the event belongs to.
    pub fn id(&self) -> (id: &str)
        ensures
            id@ == self@.id,
    {
        self.id.as_str()
    }

    /// What the event reports on.
    pub fn kind(&self) -> (kind: EventKind)
        ensures
            kind == self@.kind,
    {
        self.kind
    }

    /// The fields that follow the id in the event's line.
    pub fn data(&self) -> (data: &Vec<String>)
        ensures
            views(data@) == self@.data,
    {
        &self.data
    }

    /// The line that the event was read from.
    pub fn raw(&self) -> (line: &str)
        ensures
            line@ == self@.raw,
    {
        self.raw.as_str()
    }

    /// Gives up the event for the fields that follow its id.
    pub fn into_data(self) -> (data: Vec<String>)
        ensures
            views(data@) == self@.data,
    {
        self.data
    }
}

/// A pending line, as a mathematical value.
pub struct PendingView {
    pub id: Seq<char>,
    pub raw: Seq<char>,
}

/// The server's acknowledgement that a request was taken up, with the
/// marker under which its result will follow.
#[derive(Debug)]
pub struct Pending {
    id: String,
    raw: String,
}

impl View for Pending {
    type V = PendingView;

    closed spec fn view(&self) -> PendingView {
        PendingView { id: self.id@, raw: self.raw@ }
    }
}

impl Pending {
    /// The marker of the pending request.
    pub fn id(&self) -> (id: &str)
        ensures
            id@ == self@.id,
    {
        self.id.as_str()
    }

    /// The line that the acknowledgement was read from.
    pub fn raw(&self) -> (line: &str)
        ensures
            line@ == self@.raw,
    {
        self.raw.as_str()
    }
}

/// A response, as a mathematical value.
pub enum ResponseView {
    Connected,
    Started,
    Ended,
    Pending(PendingView),
    Event(EventView),
    Result,
    Okay,
    Error,
}

/// One line from the server, classified by its first word.
#[derive(Debug)]
pub enum ResponseMessage {
    /// `CONNECTED`
    Connected,
    /// `STARTED`
    Started,
    /// `ENDED`
    Ended,
    /// `PENDING <id>`
    Pending(Pending),
    /// `EVENT <kind> <id> <data...>`
    Event(Event),
    /// `RESULT`
    Result,
    /// `OK`
    Okay,
    /// `ERR`
    Error,
}

impl View for ResponseMessage {
    type V = ResponseView;

    open spec fn view(&self) -> ResponseView {
        match self {
            ResponseMessage::Connected => ResponseView::Connected,
            ResponseMessage::Started => ResponseView::Started,
            ResponseMessage::Ended => ResponseView::Ended,
            ResponseMessage::Pending(p) => ResponseView::Pending(p@),
            ResponseMessage::Event(e) => ResponseView::Event(e@),
            ResponseMessage::Result => ResponseView::Result,
            ResponseMessage::Okay => ResponseView::Okay,
            ResponseMessage::Error => ResponseView::Error,
        }
    }
}

/// The response that the words of a line stand for, where `raw` is the line
/// itself. The first word selects the variant and the words after it are
/// the variant's own, in order. Words beyond those a variant has are
/// ignored, except in an event, where they are its data. No words at all, a
/// first word that is no response word, a pending line without an id, and
/// an event line without a known kind or without an id stand for no
/// response.
pub open spec fn response_of(fields: Seq<Seq<char>>, raw: Seq<char>) -> Option<ResponseView> {
    if fields.len() == 0 {
        None
    } else if fields[0] == "ENDED"@ {
        Some(ResponseView::Ended)
    } else if fields[0] == "CONNECTED"@ {
        Some(ResponseView::Connected)
    } else if fields[0] == "STARTED"@ {
        Some(ResponseView::Started)
    } else if fields[0] == "PENDING"@ {
        if fields.len() >= 2 {
            Some(ResponseView::Pending(PendingView { id: fields[1], raw }))
        } else {
            None
        }
    } else if fields[0] == "EVENT"@ {
        if fields.len() >= 3 && EventKind::of_word(fields[1]) is Some {
            Some(
                ResponseView::Event(
                    EventView {
                        id: fields[2],
                        kind: EventKind::of_word(fields[1])->0,
                        data: fields.skip(3),
                        raw,
                    },
                ),
            )
        } else {
            None
        }
    } else if fields[0] == "RESULT"@ {
        Some(ResponseView::Result)
    } else if fields[0] == "OK"@ {
        Some(ResponseView::Okay)
    } else if fields[0] == "ERR"@ {
        Some(ResponseView::Error)
    } else {
        None
    }
}

/// The response that a line stands for: the response of its words, which
/// are what stands between the white space of the line. How much white
/// space parts two words, and of which kind it is, makes no difference; the
/// response remembers the line as it came.
pub open spec fn parse_line(line: Seq<char>) -> Option<ResponseView> {
    response_of(words(line), line)
}

/// The word that stands for a kind of event on the wire.
pub open spec fn kind_word(kind: EventKind) -> Seq<char> {
    match kind {
        EventKind::Query => "QUERY"@,
        EventKind::Suggest => "SUGGEST"@,
    }
}

/// The fields of the line that stands for a response.
pub open spec fn response_fields(response: ResponseView) -> Seq<Seq<char>> {
    match response {
        ResponseView::Connected => seq!["CONNECTED"@],
        ResponseView::Started => seq!["STARTED"@],
        ResponseView::Ended => seq!["ENDED"@],
        ResponseView::Pending(p) => seq!["PENDING"@, p.id],
        ResponseView::Event(e) => seq!["EVENT"@, kind_word(e.kind), e.id] + e.data,
        ResponseView::Result => seq!["RESULT"@],
        ResponseView::Okay => seq!["OK"@],
        ResponseView::Error => seq!["ERR"@],
    }
}

/// The line that stands for a response: its fields with a space between
/// neighbours.
pub open spec fn response_line(response: ResponseView) -> Seq<char> {
    joined(response_fields(response), seq![' '])
}

/// Whether a response can be written as a line: each of its fields is a
/// word, and the line that it remembers is the line that stands for it.
pub open spec fn writable(response: ResponseView) -> bool {
    match response {
        ResponseView::Pending(p) => is_word(p.id) && p.raw == response_line(response),
        ResponseView::Event(e) => {
            &&& is_word(e.id)
            &&& forall|i: int| 0 <= i < e.data.len() ==> is_word(#[trigger] e.data[i])
            &&& e.raw == response_line(response)
        },
        _ => true,
    }
}

/// The words of the protocol are words, and differ from one another.
proof fn lemma_protocol_words()
    ensures
        is_word("CONNECTED"@),
        is_word("STARTED"@),
        is_word("ENDED"@),
        is_word("PENDING"@),
        is_word("EVENT"@),
        is_word("RESULT"@),
        is_word("OK"@),
        is_word("ERR"@),
        is_word("QUERY"@),
        is_word("SUGGEST"@),
        "CONNECTED"@.len() == 9,
        "STARTED"@.len() == 7 && "STARTED"@[0] == 'S',
        "ENDED"@.len() == 5 && "ENDED"@[1] == 'N',
        "PENDING"@.len() == 7 && "PENDING"@[0] == 'P',
        "EVENT"@.len() == 5 && "EVENT"@[1] == 'V',
        "RESULT"@.len() == 6,
        "OK"@.len() == 2,
        "ERR"@.len() == 3,
        "QUERY"@.len() == 5,
        "SUGGEST"@.len() == 7,
{
    reveal_strlit("CONNECTED");
    reveal_strlit("STARTED");
    reveal_strlit("ENDED");
    reveal_strlit("PENDING");
    reveal_strlit("EVENT");
    reveal_strlit("RESULT");
    reveal_strlit("OK");
    reveal_strlit("ERR");
    reveal_strlit("QUERY");
    reveal_strlit("SUGGEST");
}

/// What is written is read: the line that stands for a response is parsed
/// as that response.
pub proof fn lemma_written_response_is_read(response: ResponseView)
    requires
        writable(response),
    ensures
        parse_line(response_line(response)) == Some(response),
{
    lemma_protocol_words();
    let fields = response_fields(response);
    assert forall|i: int| 0 <= i < fields.len() implies is_word(#[trigger] fields[i]) by {
        match response {
            ResponseView::Event(e) => {
                if i >= 3 {
                    assert(fields[i] == e.data[i - 3]);
                }
            },
            _ => {},
        }
    }
    lemma_words_join(fields);
    match response {
        ResponseView::Event(e) => {
            assert(fields.skip(3) =~= e.data);
        },
        _ => {},
    }
}

/// Lines with the same words stand for the same response, but for the line
/// that the response remembers: white space at the ends of a line, and more
/// of it or another kind of it between two words, changes nothing else.
pub proof fn lemma_response_goes_by_words(a: Seq<char>, b: Seq<char>)
    requires
        words(a) == words(b),
    ensures
        parse_line(a) == response_of(words(b), a),
        parse_line(a) is Some <==> parse_line(b) is Some,
{
}

/// A line without a response word at its head stands for no response: an
/// empty line, a line of white space, and a line whose first word is not
/// one of the eight.
pub proof fn lemma_unknown_word_is_no_response(line: Seq<char>)
    requires
        words(line).len() == 0 || {
            let head = words(line)[0];
            &&& head != "CONNECTED"@
            &&& head != "STARTED"@
            &&& head != "ENDED"@
            &&& head != "PENDING"@
            &&& head != "EVENT"@
            &&& head != "RESULT"@
            &&& head != "OK"@
            &&& head != "ERR"@
        },
    ensures
        parse_line(line) is None,
{
}

impl ResponseMessage {
    /// Reads one line from the server. A line outside the grammar is
    /// reported as `ProtocolParseError`, and never ends the process.
    pub fn parse(line: String) -> (r: Result<ResponseMessage, ClientError>)
        ensures
            match parse_line(line@) {
                Some(v) => r matches Ok(m) && m@ == v,
                None => r matches Err(e) && e == ClientError::ProtocolParseError,
            },
    {
        let mut fields = split_words(line.as_str());
        if fields.len() == 0 {
            return Err(ClientError::ProtocolParseError);
        }
        let ghost all = views(fields@);
        let head = fields.remove(0);
        assert(views(fields@) =~= all.skip(1));
        let word = head.as_str();
        if word.eq("ENDED") {
            Ok(ResponseMessage::Ended)
        } else if word.eq("CONNECTED") {
            Ok(ResponseMessage::Connected)
        } else if word.eq("STARTED") {
            Ok(ResponseMessage::Started)
        } else if word.eq("PENDING") {
            if fields.len() >= 1 {
                let id = fields.remove(0);
                Ok(ResponseMessage::Pending(Pending { id, raw: line }))
            } else {
                Err(ClientError::ProtocolParseError)
            }
        } else if word.eq("EVENT") {
            if fields.len() >= 2 {
                let kind_word = fields.remove(0);
                match EventKind::parse(kind_word.as_str()) {
                    Some(kind) => {
                        let id = fields.remove(0);
                        assert(views(fields@) =~= all.skip(3));
                        Ok(ResponseMessage::Event(Event { id, kind, data: fields, raw: line }))
                    },
                    None => Err(ClientError::ProtocolParseError),
                }
            } else {
                Err(ClientError::ProtocolParseError)
            }
        } else if word.eq("RESULT") {
            Ok(ResponseMessage::Result)
        } else if word.eq("OK") {
            Ok(ResponseMessage::Okay)
        } else if word.eq("ERR") {
            Ok(ResponseMessage::Error)
        } else {
            Err(ClientError::ProtocolParseError)
        }
    }
}

/// What a session is opened with.
pub struct ClientOptions<'a> {
    /// The server's address, as host and port.
    pub addr: &'a str,
    /// The credential that the server expects.
    pub password: &'a str,
    /// What the session is for.
    pub mode: Mode,
}

impl Default for ClientOptions<'_> {
    /// A search session with a server on this host, under the password
    /// that the server ships with.
    fn default() -> (options: Self)
        ensures
            options.addr@ == "[::1]:1491"@,
            options.password@ == "SecretPassword"@,
            options.mode == Mode::Search,
    {
        ClientOptions { addr: "[::1]:1491", password: "SecretPassword", mode: Mode::Search }
    }
}

impl<'a> ClientOptions<'a> {
    /// The request that opens the session.
    pub fn start_request(&self) -> (request: RequestMessage<'a>)
        ensures
            request == RequestMessage::Start(self.mode, self.password),
    {
        RequestMessage::Start(self.mode, self.password)
    }
}

} // verus!
