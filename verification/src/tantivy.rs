//! The layout of the local full-text index: where it lives, which fields a
//! document has and how each is treated, and how its text is cut into
//! tokens. The engine that keeps the index on disk is set up from this.

use vstd::prelude::*;
use vstd::string::*;
use crate::encoding::{hex_bytes, hex_decode, hex_encode, hex_text};
use crate::index::{tuple_views, Index, IndexError, TupleView};

verus! {

/// After how many added documents a bulk load commits.
pub const BULK_COUNT: usize = 100;

/// How many documents a query returns at most.
pub const RESULT_LIMIT: usize = 30;

/// The memory that the writer of a bulk load may use, in bytes.
pub const WRITER_HEAP_BYTES: usize = 50_000_000;

/// The shortest run of characters that the name tokenizer emits.
pub const NGRAM_MIN: usize = 2;

/// The longest run of characters that the name tokenizer emits.
pub const NGRAM_MAX: usize = 10;

/// Tokens longer than this many bytes are dropped.
pub const TOKEN_LENGTH_LIMIT: usize = 40;

/// Where the index lives, and whether it is built anew.
#[derive(Debug, Clone)]
pub struct TantivyOptions {
    pub index_dir: String,
    pub rebuild: bool,
}

impl TantivyOptions {
    /// The options as text: the directory of the index.
    pub fn to_string(&self) -> (s: String)
        ensures
            s@ == self.index_dir@,
    {
        self.index_dir.clone()
    }
}

impl Default for TantivyOptions {
    /// An index under `./index/` that is opened as it is.
    fn default() -> (options: Self)
        ensures
            options.index_dir@ == "./index/"@,
            !options.rebuild,
    {
        TantivyOptions { index_dir: String::from_str("./index/"), rebuild: false }
    }
}

/// How the index is brought up.
#[derive(Clone, Copy, Debug, PartialEq, Eq, Structural)]
pub enum OpenMode {
    /// A new index is created in the directory.
    Create,
    /// The index in the directory is opened, or created if there is none.
    OpenOrCreate,
}

/// How a field of a document is treated.
#[derive(Clone, Copy, Debug, PartialEq, Eq, Structural)]
pub enum FieldKind {
    /// Kept with the document, not searched.
    Stored,
    /// Searched as running text.
    Text,
    /// Searched by the beginnings of its words, with frequencies and
    /// positions: cut into prefixes of `NGRAM_MIN` to `NGRAM_MAX`
    /// characters, long tokens dropped, lower-cased and stemmed as English.
    Ngram,
}

/// The fields of a document, in the order of the schema.
pub open spec fn schema() -> Seq<(Seq<char>, FieldKind)> {
    seq![
        ("id"@, FieldKind::Stored),
        ("type"@, FieldKind::Stored),
        ("mtype"@, FieldKind::Stored),
        ("name_ng"@, FieldKind::Ngram),
        ("name"@, FieldKind::Text),
        ("desc"@, FieldKind::Text),
        ("doc"@, FieldKind::Stored),
    ]
}

/// The fields that a query is matched against when it names none.
pub open spec fn query_fields() -> Seq<Seq<char>> {
    seq!["name"@, "name_ng"@, "desc"@]
}

/// One field of the schema.
#[derive(Debug, Clone)]
pub struct FieldSpec {
    pub name: String,
    pub kind: FieldKind,
}

/// The fields of `fields` as mathematical values.
pub open spec fn field_views(fields: Seq<FieldSpec>) -> Seq<(Seq<char>, FieldKind)> {
    fields.map_values(|f: FieldSpec| (f.name@, f.kind))
}

/// The layout of one index.
#[derive(Debug)]
pub struct Tantivy {
    options: TantivyOptions,
    fields: Vec<FieldSpec>,
}

impl Tantivy {
    /// Every layout has the fields of the schema, and no others.
    #[verifier::type_invariant]
    spec fn has_schema(self) -> bool {
        field_views(self.fields@) == schema()
    }

    /// The directory of the index.
    pub closed spec fn index_dir(&self) -> Seq<char> {
        self.options.index_dir@
    }

    /// Whether the index is built anew.
    pub closed spec fn rebuild(&self) -> bool {
        self.options.rebuild
    }

    /// The fields of the index.
    pub closed spec fn fields(&self) -> Seq<(Seq<char>, FieldKind)> {
        field_views(self.fields@)
    }

    /// The layout of the index that `options` describe: every index has the
    /// same schema.
    pub fn new(options: TantivyOptions) -> (index: Self)
        ensures
            index.index_dir() == options.index_dir@,
            index.rebuild() == options.rebuild,
            index.fields() == schema(),
    {
        let mut fields: Vec<FieldSpec> = Vec::new();
        fields.push(FieldSpec { name: String::from_str("id"), kind: FieldKind::Stored });
        fields.push(FieldSpec { name: String::from_str("type"), kind: FieldKind::Stored });
        fields.push(FieldSpec { name: String::from_str("mtype"), kind: FieldKind::Stored });
        fields.push(FieldSpec { name: String::from_str("name_ng"), kind: FieldKind::Ngram });
        fields.push(FieldSpec { name: String::from_str("name"), kind: FieldKind::Text });
        fields.push(FieldSpec { name: String::from_str("desc"), kind: FieldKind::Text });
        fields.push(FieldSpec { name: String::from_str("doc"), kind: FieldKind::Stored });
        assert(field_views(fields@) =~= schema());
        Tantivy { options, fields }
    }

    /// The options that the layout was made from.
    pub fn options(&self) -> (options: &TantivyOptions)
        ensures
            options.index_dir@ == self.index_dir(),
            options.rebuild == self.rebuild(),
    {
        &self.options
    }

    /// The layout as text: the directory of the index.
    pub fn to_string(&self) -> (s: String)
        ensures
            s@ == self.index_dir(),
    {
        self.options.to_string()
    }

    /// How the index is brought up: created when it is to be built anew,
    /// else opened, and created only if there is none.
    pub fn open_mode(&self) -> (mode: OpenMode)
        ensures
            mode == if self.rebuild() {
                OpenMode::Create
            } else {
                OpenMode::OpenOrCreate
            },
    {
        if self.options.rebuild {
            OpenMode::Create
        } else {
            OpenMode::OpenOrCreate
        }
    }

    /// The fields that a query is matched against when it names none.
    pub fn default_fields(&self) -> (names: Vec<String>)
        ensures
            names@.map_values(|n: String| n@) == query_fields(),
    {
        let mut names: Vec<String> = Vec::new();
        names.push(String::from_str("name"));
        names.push(String::from_str("name_ng"));
        names.push(String::from_str("desc"));
        assert(names@.map_values(|n: String| n@) =~= query_fields());
        names
    }

    /// The fields of the schema, in order.
    pub fn schema_fields(&self) -> (fields: &Vec<FieldSpec>)
        ensures
            field_views(fields@) == self.fields(),
    {
        &self.fields
    }

    /// How the field `name` is treated, if the schema has it.
    pub fn field_kind(&self, name: &str) -> (kind: Option<FieldKind>)
        ensures
            match kind {
                Some(k) => exists|i: int|
                    0 <= i < self.fields().len() && #[trigger] self.fields()[i] == (name@, k),
                None => forall|i: int|
                    0 <= i < self.fields().len() ==> (#[trigger] self.fields()[i]).0 != name@,
            },
    {
        let mut i: usize = 0;
        while i < self.fields.len()
            invariant
                i <= self.fields.len(),
                forall|j: int| 0 <= j < i ==> (#[trigger] self.fields()[j]).0 != name@,
            decreases self.fields.len() - i,
        {
            if self.fields[i].name.as_str().eq(name) {
                assert(self.fields()[i as int] == (name@, self.fields[i as int].kind));
                return Some(self.fields[i].kind);
            }
            i += 1;
        }
        None
    }
}

impl Clone for Tantivy {
    fn clone(&self) -> (index: Self)
        ensures
            index.index_dir() == self.index_dir(),
            index.rebuild() == self.rebuild(),
            index.fields() == schema(),
    {
        Tantivy::new(
            TantivyOptions {
                index_dir: self.options.index_dir.clone(),
                rebuild: self.options.rebuild,
            },
        )
    }
}

/// One entry of a document: the name of a field and a text.
pub type Entry = (Seq<char>, Seq<char>);

/// A document of the index: texts under field names, in the order in which
/// they were added. A field may occur more than once.
#[derive(Debug, Clone)]
pub struct Document {
    entries: Vec<(String, String)>,
}

/// The entries of `entries` as mathematical values.
pub open spec fn entry_views(entries: Seq<(String, String)>) -> Seq<Entry> {
    entries.map_values(|e: (String, String)| (e.0@, e.1@))
}

/// The first text under `field` among `entries`, if there is one.
pub open spec fn first_under(entries: Seq<Entry>, field: Seq<char>) -> Option<Seq<char>>
    decreases entries.len(),
{
    if entries.len() == 0 {
        None
    } else if entries.first().0 == field {
        Some(entries.first().1)
    } else {
        first_under(entries.drop_first(), field)
    }
}

impl View for Document {
    type V = Seq<Entry>;

    closed spec fn view(&self) -> Seq<Entry> {
        entry_views(self.entries@)
    }
}

impl Document {
    /// A document without entries.
    pub fn new() -> (doc: Document)
        ensures
            doc@ == Seq::<Entry>::empty(),
    {
        let doc = Document { entries: Vec::new() };
        assert(doc@ =~= Seq::<Entry>::empty());
        doc
    }

    /// Adds `text` under `field`, after the entries that are there.
    pub fn add_text(&mut self, field: &str, text: &str)
        ensures
            final(self)@ == old(self)@.push((field@, text@)),
    {
        self.entries.push((String::from_str(field), String::from_str(text)));
        assert(self@ =~= old(self)@.push((field@, text@)));
    }

    /// How many entries the document has.
    pub fn len(&self) -> (n: usize)
        ensures
            n == self@.len(),
    {
        self.entries.len()
    }

    /// The first text under `field`, if the document has one.
    pub fn get_first(&self, field: &str) -> (text: Option<&str>)
        ensures
            match text {
                Some(t) => first_under(self@, field@) == Some(t@),
                None => first_under(self@, field@) is None,
            },
    {
        let mut i: usize = 0;
        assert(self@.skip(0) =~= self@);
        while i < self.entries.len()
            invariant
                i <= self.entries.len(),
                first_under(self@, field@) == first_under(self@.skip(i as int), field@),
            decreases self.entries.len() - i,
        {
            proof {
                let rest = self@.skip(i as int);
                assert(rest.first() == self@[i as int]);
                assert(rest.drop_first() =~= self@.skip(i as int + 1));
            }
            if self.entries[i].0.as_str().eq(field) {
                return Some(self.entries[i].1.as_str());
            }
            i += 1;
        }
        None
    }
}

/// Whether the schema has a field of this name.
pub open spec fn in_schema(name: Seq<char>) -> bool {
    exists|i: int| 0 <= i < schema().len() && (#[trigger] schema()[i]).0 == name
}

/// The entries that the `j`th tuple of a value adds to the value's document:
/// the first tuple gives the document its identifier; a name is entered a
/// second time under the field that is searched by prefixes; and every tuple
/// puts its text under its own field.
pub open spec fn tuple_entries(j: int, t: TupleView) -> Seq<Entry> {
    let id = if j == 0 {
        seq![("id"@, t.2)]
    } else {
        Seq::<Entry>::empty()
    };
    let prefixes = if t.1 == "name"@ {
        seq![("name_ng"@, t.3)]
    } else {
        Seq::<Entry>::empty()
    };
    id + prefixes + seq![(t.1, t.3)]
}

/// The entries that the first `n` of `tuples` add to a document.
pub open spec fn entries_of(tuples: Seq<TupleView>, n: int) -> Seq<Entry>
    decreases n,
{
    if n <= 0 {
        Seq::<Entry>::empty()
    } else {
        entries_of(tuples, n - 1) + tuple_entries(n - 1, tuples[n - 1])
    }
}

/// The document of a value with these tuples, this type name and these
/// bytes: the entries of the tuples, then the type name, then the bytes as
/// hexadecimal text.
pub open spec fn document_of(tuples: Seq<TupleView>, mtype: Seq<char>, bytes: Seq<u8>) -> Seq<
    Entry,
> {
    entries_of(tuples, tuples.len() as int) + seq![("mtype"@, mtype), ("doc"@, hex_text(bytes))]
}

/// Whether every one of `tuples` names a field of the schema.
pub open spec fn fit_schema(tuples: Seq<TupleView>) -> bool {
    forall|j: int| 0 <= j < tuples.len() ==> in_schema((#[trigger] tuples[j]).1)
}

/// The steps of a bulk load.
#[derive(Clone, Copy, Debug, PartialEq, Eq, Structural)]
pub enum BulkStep {
    /// Add the document of the value at this position.
    Add(usize),
    /// Commit what has been added. A failure is noted and the load goes on.
    Commit,
    /// Commit what has been added. A failure fails the load.
    FinalCommit,
}

/// Whether a bulk load commits after it has added the value at `position`.
pub open spec fn commit_due(position: int) -> bool {
    position % (BULK_COUNT as int) == 0
}

/// The steps of a bulk load of the first `n` values, without the last commit.
pub open spec fn bulk_steps(n: int) -> Seq<BulkStep>
    decreases n,
{
    if n <= 0 {
        Seq::<BulkStep>::empty()
    } else if commit_due(n - 1) {
        bulk_steps(n - 1).push(BulkStep::Add((n - 1) as usize)).push(BulkStep::Commit)
    } else {
        bulk_steps(n - 1).push(BulkStep::Add((n - 1) as usize))
    }
}

/// What a search came to.
#[derive(Debug)]
pub enum SearchOutcome {
    /// The query could not be read.
    QueryRejected,
    /// The search failed.
    SearchFailed,
    /// The search found these documents, best first. `None` stands for a
    /// document that was found and could not be loaded.
    Hits(Vec<Option<Document>>),
}

/// The documents of `hits` that could be loaded, in order.
pub open spec fn loaded(hits: Seq<Option<Document>>) -> Seq<Document>
    decreases hits.len(),
{
    if hits.len() == 0 {
        Seq::<Document>::empty()
    } else {
        match hits.last() {
            Some(doc) => loaded(hits.drop_last()).push(doc),
            None => loaded(hits.drop_last()),
        }
    }
}

/// What a hit yields: its type name and its bytes. A document without a
/// type name or without stored text yields nothing.
pub open spec fn hit_of(doc: Seq<Entry>) -> Option<(Seq<char>, Option<Seq<u8>>)> {
    match (first_under(doc, "doc"@), first_under(doc, "mtype"@)) {
        (Some(text), Some(mtype)) => Some((mtype, hex_bytes(text))),
        _ => None,
    }
}

/// The type names and bytes that the first `n` of `docs` yield, in order,
/// or `None` if the stored text of one of them is not the text of any bytes.
pub open spec fn hits_of(docs: Seq<Document>, n: int) -> Option<Seq<(Seq<char>, Seq<u8>)>>
    decreases n,
{
    if n <= 0 {
        Some(Seq::<(Seq<char>, Seq<u8>)>::empty())
    } else {
        match hits_of(docs, n - 1) {
            None => None,
            Some(earlier) => match hit_of(docs[n - 1]@) {
                None => Some(earlier),
                Some((mtype, Some(bytes))) => Some(earlier.push((mtype, bytes))),
                Some((_, None)) => None,
            },
        }
    }
}

/// The identifiers of the first `n` of `docs`, in order, or `None` if one of
/// them has none.
pub open spec fn ids_of(docs: Seq<Document>, n: int) -> Option<Seq<Seq<char>>>
    decreases n,
{
    if n <= 0 {
        Some(Seq::<Seq<char>>::empty())
    } else {
        match (ids_of(docs, n - 1), first_under(docs[n - 1]@, "id"@)) {
            (Some(earlier), Some(id)) => Some(earlier.push(id)),
            _ => None,
        }
    }
}

/// The pairs of `hits` as mathematical values.
pub open spec fn hit_views(hits: Seq<(String, Vec<u8>)>) -> Seq<(Seq<char>, Seq<u8>)> {
    hits.map_values(|h: (String, Vec<u8>)| (h.0@, h.1@))
}

impl Tantivy {
    /// The document under which a value is indexed, from what the value
    /// gives of itself. A value with a tuple for a field that the schema
    /// does not have cannot be indexed.
    pub fn idx_to_doc(
        &self,
        tuples: &Vec<(String, String, String, String)>,
        mtype: &str,
        bytes: &[u8],
    ) -> (r: Result<Document, IndexError>)
        ensures
            match r {
                Ok(doc) => fit_schema(tuple_views(tuples@)) && doc@ == document_of(
                    tuple_views(tuples@),
                    mtype@,
                    bytes@,
                ),
                Err(e) => !fit_schema(tuple_views(tuples@)) && e == IndexError::ProcessingError,
            },
    {
        proof {
            use_type_invariant(self);
        }
        let ghost tv = tuple_views(tuples@);
        let mut doc = Document::new();
        let mut j: usize = 0;
        while j < tuples.len()
            invariant
                j <= tuples.len(),
                tv == tuple_views(tuples@),
                self.fields() == schema(),
                doc@ == entries_of(tv, j as int),
                forall|k: int| 0 <= k < j ==> in_schema((#[trigger] tv[k]).1),
            decreases tuples.len() - j,
        {
            let t = &tuples[j];
            assert(tv[j as int] == (t.0@, t.1@, t.2@, t.3@));
            match self.field_kind(t.1.as_str()) {
                None => {
                    assert(!in_schema(tv[j as int].1));
                    return Err(IndexError::ProcessingError);
                },
                Some(_) => {
                    assert(in_schema(tv[j as int].1));
                },
            }
            let ghost before = doc@;
            if j == 0 {
                doc.add_text("id", t.2.as_str());
            }
            if t.1.as_str().eq("name") {
                doc.add_text("name_ng", t.3.as_str());
            }
            doc.add_text(t.1.as_str(), t.3.as_str());
            assert(doc@ =~= before + tuple_entries(j as int, tv[j as int]));
            j += 1;
        }
        let text = hex_encode(bytes);
        let ghost before = doc@;
        doc.add_text("mtype", mtype);
        doc.add_text("doc", text.as_str());
        assert(doc@ =~= before + seq![("mtype"@, mtype@), ("doc"@, hex_text(bytes@))]);
        Ok(doc)
    }

    /// The document under which `idx` is indexed: the value is asked for its
    /// tuples, its type name and its bytes, and the document is made of them
    /// as `idx_to_doc` makes it. What the value answers is its own affair,
    /// so the document is known only as the document of some tuples that
    /// fit the schema, some type name and some bytes; a value with a tuple
    /// for a field that the schema does not have cannot be indexed.
    pub fn index_document<T: Index>(&self, idx: &T) -> (r: Result<Document, IndexError>)
        ensures
            match r {
                Ok(doc) => exists|tuples: Seq<TupleView>, mtype: Seq<char>, bytes: Seq<u8>|
                    fit_schema(tuples) && doc@ == #[trigger] document_of(tuples, mtype, bytes),
                Err(e) => e == IndexError::ProcessingError,
            },
    {
        let tuples = idx.tuples();
        let mtype = idx.mtype();
        let bytes = idx.to_bytes();
        let r = self.idx_to_doc(&tuples, mtype.as_str(), bytes.as_slice());
        proof {
            if r is Ok {
                assert(fit_schema(tuple_views(tuples@)) && r->Ok_0@ == document_of(
                    tuple_views(tuples@),
                    mtype@,
                    bytes@,
                ));
            }
        }
        r
    }

    /// The steps of a bulk load of `n` values: each value is added in turn,
    /// a commit follows the first value and every `BULK_COUNT`th after it,
    /// and one last commit ends the load.
    pub fn index_bulk(&self, n: usize) -> (steps: Vec<BulkStep>)
        ensures
            steps@ == bulk_steps(n as int).push(BulkStep::FinalCommit),
    {
        let mut steps: Vec<BulkStep> = Vec::new();
        let mut i: usize = 0;
        while i < n
            invariant
                i <= n,
                steps@ == bulk_steps(i as int),
            decreases n - i,
        {
            steps.push(BulkStep::Add(i));
            if i % BULK_COUNT == 0 {
                steps.push(BulkStep::Commit);
            }
            i += 1;
        }
        steps.push(BulkStep::FinalCommit);
        steps
    }

    /// What a bulk load comes to, where `committed` says whether the last
    /// commit went through.
    pub fn bulk_outcome(&self, committed: bool) -> (r: Result<(), IndexError>)
        ensures
            committed ==> r is Ok,
            !committed ==> r == Err::<(), IndexError>(IndexError::ProcessingError),
    {
        if committed {
            Ok(())
        } else {
            Err(IndexError::ProcessingError)
        }
    }

    /// The documents that a search for at most `limit` documents has found:
    /// those of its first `limit` hits that could be loaded, best first. A
    /// query that could not be read and a search that failed are errors.
    pub fn do_query(&self, outcome: SearchOutcome, limit: usize) -> (r: Result<
        Vec<Document>,
        IndexError,
    >)
        ensures
            match outcome {
                SearchOutcome::Hits(hits) => r matches Ok(docs) && docs@ == loaded(
                    if hits@.len() <= limit {
                        hits@
                    } else {
                        hits@.take(limit as int)
                    },
                ),
                _ => r matches Err(e) && e == IndexError::ProcessingError,
            },
    {
        match outcome {
            SearchOutcome::QueryRejected => Err(IndexError::ProcessingError),
            SearchOutcome::SearchFailed => Err(IndexError::ProcessingError),
            SearchOutcome::Hits(hits) => {
                let mut hits = hits;
                if hits.len() > limit {
                    hits.truncate(limit);
                }
                let ghost all = hits@;
                let mut results: Vec<Document> = Vec::new();
                assert(all.take(0) =~= Seq::<Option<Document>>::empty());
                for hit in it: hits
                    invariant
                        it.seq() == all,
                        results@ == loaded(all.take(it.index())),
                {
                    proof {
                        let i = it.index();
                        assert(all.take(i + 1).drop_last() =~= all.take(i));
                        assert(all.take(i + 1).last() == all[i]);
                    }
                    match hit {
                        Some(doc) => {
                            results.push(doc);
                        },
                        None => {},
                    }
                }
                assert(all.take(all.len() as int) =~= all);
                Ok(results)
            },
        }
    }
}

impl Tantivy {
    /// The type names and the bytes of the documents found, in order.
    /// Documents without a type name or without stored text are passed
    /// over; stored text that is not hexadecimal is an error.
    pub fn query(&self, docs: &Vec<Document>) -> (r: Result<Vec<(String, Vec<u8>)>, IndexError>)
        ensures
            match r {
                Ok(hits) => hits_of(docs@, docs@.len() as int) == Some(hit_views(hits@)),
                Err(e) => hits_of(docs@, docs@.len() as int) is None && e
                    == IndexError::ProcessingError,
            },
    {
        let mut hits: Vec<(String, Vec<u8>)> = Vec::new();
        let mut i: usize = 0;
        assert(hit_views(hits@) =~= Seq::<(Seq<char>, Seq<u8>)>::empty());
        while i < docs.len()
            invariant
                i <= docs.len(),
                hits_of(docs@, i as int) == Some(hit_views(hits@)),
            decreases docs.len() - i,
        {
            let doc = &docs[i];
            match doc.get_first("doc") {
                Some(text) => match doc.get_first("mtype") {
                    Some(mtype) => match hex_decode(text) {
                        Ok(bytes) => {
                            let ghost before = hit_views(hits@);
                            hits.push((String::from_str(mtype), bytes));
                            assert(hit_views(hits@) =~= before.push((mtype@, bytes@)));
                        },
                        Err(_) => {
                            proof {
                                lemma_hits_fail_on(docs@, i as int + 1, docs@.len() as int);
                            }
                            return Err(IndexError::ProcessingError);
                        },
                    },
                    None => {},
                },
                None => {},
            }
            i += 1;
        }
        Ok(hits)
    }

    /// The identifiers of the documents found, in order. A document
    /// without an identifier is an error.
    pub fn query_ids(&self, docs: &Vec<Document>) -> (r: Result<Vec<String>, IndexError>)
        ensures
            match r {
                Ok(ids) => ids_of(docs@, docs@.len() as int) == Some(
                    ids@.map_values(|id: String| id@),
                ),
                Err(e) => ids_of(docs@, docs@.len() as int) is None && e
                    == IndexError::ProcessingError,
            },
    {
        let mut ids: Vec<String> = Vec::new();
        let mut i: usize = 0;
        assert(ids@.map_values(|id: String| id@) =~= Seq::<Seq<char>>::empty());
        while i < docs.len()
            invariant
                i <= docs.len(),
                ids_of(docs@, i as int) == Some(ids@.map_values(|id: String| id@)),
            decreases docs.len() - i,
        {
            match docs[i].get_first("id") {
                Some(id) => {
                    let ghost before = ids@.map_values(|id: String| id@);
                    ids.push(String::from_str(id));
                    assert(ids@.map_values(|id: String| id@) =~= before.push(id@));
                },
                None => {
                    proof {
                        lemma_ids_fail_on(docs@, i as int + 1, docs@.len() as int);
                    }
                    return Err(IndexError::ProcessingError);
                },
            }
            i += 1;
        }
        Ok(ids)
    }
}

/// Once the hits of some documents cannot be given, no further document
/// mends it.
proof fn lemma_hits_fail_on(docs: Seq<Document>, n: int, m: int)
    requires
        0 <= n <= m,
        hits_of(docs, n) is None,
    ensures
        hits_of(docs, m) is None,
    decreases m - n,
{
    if n < m {
        lemma_hits_fail_on(docs, n, m - 1);
    }
}

/// Once the identifiers of some documents cannot be given, no further
/// document mends it.
proof fn lemma_ids_fail_on(docs: Seq<Document>, n: int, m: int)
    requires
        0 <= n <= m,
        ids_of(docs, n) is None,
    ensures
        ids_of(docs, m) is None,
    decreases m - n,
{
    if n < m {
        lemma_ids_fail_on(docs, n, m - 1);
    }
}

} // verus!
