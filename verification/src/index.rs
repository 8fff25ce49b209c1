//! What an index of documents offers, whichever engine stands behind it.

use vstd::prelude::*;
use vstd::string::*;
use crate::client::{IngestRequestMessage, ResponseMessage, ResponseView, SearchRequestMessage};
use crate::text::views;

verus! {

/// What can go wrong in an index.
#[derive(Clone, Copy, Debug, PartialEq, Eq, Structural)]
pub enum IndexError {
    /// The engine could not carry out the request.
    ProcessingError,
}

impl IndexError {
    pub open spec fn text(self) -> Seq<char> {
        match self {
            IndexError::ProcessingError => "ProcessingError"@,
        }
    }

    /// The name of the error.
    pub fn to_string(&self) -> (s: String)
        ensures
            s@ == self.text(),
    {
        match self {
            IndexError::ProcessingError => String::from_str("ProcessingError"),
        }
    }
}

/// What is indexed of a value, as mathematical values: for each
/// entry the collection, the field, the identifier and the text.
pub type TupleView = (Seq<char>, Seq<char>, Seq<char>, Seq<char>);

/// The tuples of `tuples` as mathematical values.
pub open spec fn tuple_views(tuples: Seq<(String, String, String, String)>) -> Seq<TupleView> {
    tuples.map_values(|t: (String, String, String, String)| (t.0@, t.1@, t.2@, t.3@))
}

/// A value that can be stored as bytes.
pub trait ToBytes {
    fn to_bytes(&self) -> Vec<u8>;
}

/// A value that can be indexed.
pub trait Index: ToBytes {
    /// The identifier under which the value is found again.
    fn id(&self) -> String;

    /// The name of the value's type.
    fn mtype(&self) -> String;

    /// What is indexed of the value: for each entry the collection, the
    /// field, the identifier and the text.
    fn tuples(&self) -> Vec<(String, String, String, String)>;
}

/// An engine that indexes values and finds them by their text.
pub trait Indexer: Clone {
    fn index<T: Index>(&self, idx: Box<T>) -> Result<(), IndexError>;

    fn index_bulk<T: Index>(&self, idx: Vec<Box<T>>) -> Result<(), IndexError>;

    /// The identifiers of the values of `col` that match `query`.
    fn query_ids(&self, col: &str, query: &str) -> Result<Vec<String>, IndexError>;

    /// The type names and the stored bytes of the values of `col` that
    /// match `query`.
    fn query(&self, col: &str, query: &str) -> Result<Vec<(String, Vec<u8>)>, IndexError>;

    /// Removes everything of `col` from the index.
    fn flush_all(&self, col: &str) -> Result<(), IndexError>;
}

/// The bucket of a collection that queries are put to: the names of the
/// entries.
pub const QUERY_BUCKET: &'static str = "name";

/// The request that puts one tuple of a value into the index of the search
/// server: the tuple's field is the bucket, its identifier the object.
pub fn push_request<'a>(tuple: &'a (String, String, String, String)) -> (request:
    IngestRequestMessage<'a>)
    ensures
        request matches IngestRequestMessage::Push(collection, bucket, object, text)
            && collection@ == tuple.0@ && bucket@ == tuple.1@ && object@ == tuple.2@ && text@
            == tuple.3@,
{
    IngestRequestMessage::Push(
        tuple.0.as_str(),
        tuple.1.as_str(),
        tuple.2.as_str(),
        tuple.3.as_str(),
    )
}

/// The request that asks the search server for the entries of `col` whose
/// names match `query`.
pub fn query_request<'a>(col: &'a str, query: &'a str) -> (request: SearchRequestMessage<'a>)
    ensures
        request matches SearchRequestMessage::Query(collection, bucket, terms) && collection@
            == col@ && bucket@ == QUERY_BUCKET@ && terms@ == query@,
{
    SearchRequestMessage::Query(col, QUERY_BUCKET, query)
}

/// The identifiers that the search server's answer to a query holds: the
/// data of an event. Any other answer is no answer to a query.
pub fn ids_answer(response: ResponseMessage) -> (r: Result<Vec<String>, IndexError>)
    ensures
        match response@ {
            ResponseView::Event(e) => r matches Ok(ids) && views(ids@) == e.data,
            _ => r matches Err(e) && e == IndexError::ProcessingError,
        },
{
    match response {
        ResponseMessage::Event(event) => Ok(event.into_data()),
        _ => Err(IndexError::ProcessingError),
    }
}

/// What the search server's answer to a push or a flush comes to: done on
/// `OK` and on `RESULT`, failed on anything else.
pub fn done_answer(response: &ResponseMessage) -> (r: Result<(), IndexError>)
    ensures
        match response@ {
            ResponseView::Okay => r is Ok,
            ResponseView::Result => r is Ok,
            _ => r matches Err(e) && e == IndexError::ProcessingError,
        },
{
    match response {
        ResponseMessage::Okay => Ok(()),
        ResponseMessage::Result => Ok(()),
        _ => Err(IndexError::ProcessingError),
    }
}

} // verus!
