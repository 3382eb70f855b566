//! The search index: a full-text index over post bodies, kept in memory and
//! rebuilt from the content store whenever it is lost or in doubt.

use tantivy::collector::TopDocs;
use tantivy::query::QueryParser;
use tantivy::schema::{Schema, Value, INDEXED, STORED, TEXT};
use tantivy::{DateTime, IndexBuilder, ReloadPolicy, TantivyDocument};
use vstd::prelude::*;

use crate::error::Error;
use crate::model::{posts_view, Post, PostView};
use crate::ranking::{is_result, results, results_of, Found};

verus! {

/// `tantivy::DocAddress`: the number of a segment and of a document in it.
#[verifier::external_type_specification]
pub struct ExDocAddress(tantivy::DocAddress);

/// `tantivy::TantivyError`, carried as it is.
#[verifier::external_type_specification]
#[verifier::external_body]
pub struct ExTantivyError(tantivy::TantivyError);

/// The search engine: a `tantivy::Index` in memory, the `tantivy::IndexWriter`
/// that adds to it, the `tantivy::IndexReader` that searches it, and the
/// fields of its schema. Only [`open_engine`] makes one.
#[verifier::external_body]
pub struct Engine {
    index: tantivy::Index,
    writer: tantivy::IndexWriter<TantivyDocument>,
    reader: tantivy::IndexReader,
    body: tantivy::schema::Field,
    post_id: tantivy::schema::Field,
    user_id: tantivy::schema::Field,
    created_at: tantivy::schema::Field,
}

/// A query as the engine's parser gives it back: a boxed
/// `tantivy::query::Query`. Only [`parse`] makes one.
#[verifier::external_body]
pub struct ParsedQuery {
    inner: Box<dyn tantivy::query::Query>,
}

/// An entry of the index: what the index keeps of a post to find it by.
pub struct SearchEntry {
    pub post_id: u32,
    pub body: Seq<char>,
    pub author_id: u32,
    pub created_at: i64,
}

/// The memory that the index writer may use, in bytes.
pub const WRITER_MEMORY: usize = 50_000_000;

/// The number of threads that index.
pub const WRITER_THREADS: usize = 1;

/// The name of the field that holds the tokenized body of a post.
pub const BODY_FIELD: &'static str = "body";

/// The name of the field that holds the id of a post.
pub const POST_ID_FIELD: &'static str = "post_id";

/// The name of the field that holds the id of the author.
pub const USER_ID_FIELD: &'static str = "user_id";

/// The name of the field that holds the time of creation.
pub const CREATED_AT_FIELD: &'static str = "created_at";

/// The earliest time that the index can hold, in seconds since the epoch.
/// The engine keeps a time in nanoseconds, in 64 bits.
pub const MIN_INDEXED_TIME: i64 = -9_223_372_036;

/// The latest time that the index can hold, in seconds since the epoch.
pub const MAX_INDEXED_TIME: i64 = 9_223_372_036;

/// The most hits that a search asks the engine for. The engine sets aside
/// room for twice as many before it starts.
pub const MAX_HITS: usize = 1000;

/// The entries that the engine's writer holds, in the order in which they
/// were added: those of the last commit and what was added since.
pub uninterp spec fn staged(engine: Engine) -> Seq<SearchEntry>;

/// The entries of the engine's last commit, in the order in which they were added.
pub uninterp spec fn committed(engine: Engine) -> Seq<SearchEntry>;

/// The entries that the engine's reader shows to searches: those of the
/// commit that it loaded last.
pub uninterp spec fn visible(engine: Engine) -> Seq<SearchEntry>;

/// Whether the engine's writer is sound: it holds the lock of its index and
/// has the workers that it was opened with. A writer gives up the lock when
/// a rollback fails, after which another rollback panics; it may lose
/// workers when a commit fails, after which adding may wait for ever.
pub uninterp spec fn writer_sound(engine: Engine) -> bool;

/// The documents that the engine's reader shows, each by its address: the
/// number of its segment and its number within the segment.
pub uninterp spec fn shown_documents(engine: Engine) -> Set<(u32, u32)>;

/// Whether `tantivy::query::QueryParser::parse_query` accepts a query text,
/// for the schema of [`open_engine`] and the body as the field that is
/// searched.
pub uninterp spec fn query_parses(text: Seq<char>) -> bool;

/// The text that a parsed query was parsed from.
pub uninterp spec fn parsed_text(query: ParsedQuery) -> Seq<char>;

/// What the engine finds for a query, given by its text, among what its
/// reader shows: for each hit the bits of its score and its address, best
/// score first, at most `limit` of them. `None` where the search fails.
pub uninterp spec fn found(engine: Engine, text: Seq<char>, limit: nat) -> Option<Seq<(u32, u32, u32)>>;

/// The number that the document at an address stores as its post id, among
/// what the engine's reader shows: the outer `None` where the document
/// cannot be fetched, the inner where it stores no such number.
pub uninterp spec fn stored_number(engine: Engine, segment: u32, document: u32) -> Option<Option<u64>>;

/// Whether the index can hold this time of creation.
pub open spec fn indexable_time(created_at: i64) -> bool {
    MIN_INDEXED_TIME <= created_at <= MAX_INDEXED_TIME
}

/// Builds an engine: a schema with `tantivy::schema::SchemaBuilder`, an index
/// in memory with `tantivy::IndexBuilder::create_in_ram`, its writer with
/// `tantivy::Index::writer_with_num_threads` and a reader with
/// `tantivy::IndexReaderBuilder` that reloads only when told to.
///
/// The schema is the same for every engine: a tokenized text field, a stored
/// and indexed number, an indexed number and an indexed date, under the four
/// names of this module. The schema builder panics on an empty name, on one
/// that starts with `-` and on a name that comes twice; the writer divides
/// the memory by the number of threads. A new engine holds no entries, and
/// its writer is sound.
#[verifier::external_body]
fn open_engine(
    body: &str,
    post_id: &str,
    user_id: &str,
    created_at: &str,
    threads: usize,
    memory: usize,
) -> (r: Result<Engine, tantivy::TantivyError>)
    requires
        body@ == BODY_FIELD@,
        post_id@ == POST_ID_FIELD@,
        user_id@ == USER_ID_FIELD@,
        created_at@ == CREATED_AT_FIELD@,
        body@.len() > 0 && body@[0] != '-',
        post_id@.len() > 0 && post_id@[0] != '-',
        user_id@.len() > 0 && user_id@[0] != '-',
        created_at@.len() > 0 && created_at@[0] != '-',
        body@ != post_id@ && body@ != user_id@ && body@ != created_at@,
        post_id@ != user_id@ && post_id@ != created_at@ && user_id@ != created_at@,
        threads > 0,
    ensures
        r is Ok ==> staged(r->Ok_0).len() == 0 && committed(r->Ok_0).len() == 0 && visible(
            r->Ok_0,
        ).len() == 0,
        r is Ok ==> writer_sound(r->Ok_0),
{
    let mut schema = Schema::builder();
    let body = schema.add_text_field(body, TEXT);
    let post_id = schema.add_u64_field(post_id, INDEXED | STORED);
    let user_id = schema.add_u64_field(user_id, INDEXED);
    let created_at = schema.add_date_field(created_at, INDEXED);
    let index = IndexBuilder::new().schema(schema.build()).create_in_ram()?;
    let writer = index.writer_with_num_threads(threads, memory)?;
    let reader = index.reader_builder().reload_policy(ReloadPolicy::Manual).try_into()?;
    Ok(Engine { index, writer, reader, body, post_id, user_id, created_at })
}

/// Builds a `tantivy::TantivyDocument` from an entry and hands it to
/// `tantivy::IndexWriter::add_document`.
///
/// The writer then holds one entry more, at the end. Neither the last commit
/// nor what the reader shows changes, whatever the outcome, and the writer
/// stays sound. `tantivy::DateTime::from_timestamp_secs` turns the seconds
/// into nanoseconds in 64 bits, which overflows outside the range required;
/// a writer that lost its workers may never take the document.
#[verifier::external_body]
fn stage(engine: &mut Engine, post_id: u32, body: &str, author_id: u32, created_at: i64) -> (r: Result<
    (),
    tantivy::TantivyError,
>)
    requires
        indexable_time(created_at),
        writer_sound(*old(engine)),
    ensures
        committed(*final(engine)) == committed(*old(engine)),
        visible(*final(engine)) == visible(*old(engine)),
        writer_sound(*final(engine)),
        r is Ok ==> staged(*final(engine)) == staged(*old(engine)).push(
            SearchEntry { post_id, body: body@, author_id, created_at },
        ),
{
    let mut doc = TantivyDocument::default();
    doc.add_text(engine.body, body);
    doc.add_u64(engine.post_id, u64::from(post_id));
    doc.add_u64(engine.user_id, u64::from(author_id));
    doc.add_date(engine.created_at, DateTime::from_timestamp_secs(created_at));
    engine.writer.add_document(doc).map(|_| ())
}

/// Calls `tantivy::IndexWriter::commit`: on success the commit holds all
/// that the writer held, and a writer that was sound is sound. The reader
/// shows what it showed, until it reloads.
#[verifier::external_body]
fn commit(engine: &mut Engine) -> (r: Result<(), tantivy::TantivyError>)
    ensures
        visible(*final(engine)) == visible(*old(engine)),
        r is Ok ==> committed(*final(engine)) == staged(*old(engine)) && staged(*final(engine))
            == staged(*old(engine)),
        r is Ok && writer_sound(*old(engine)) ==> writer_sound(*final(engine)),
{
    engine.writer.commit().map(|_| ())
}

/// Calls `tantivy::IndexWriter::rollback`, which puts a new writer in the
/// place of the old one: on success the writer holds what the last commit
/// held, and no more, and is sound. The last commit and what the reader
/// shows stay as they are. `rollback` panics on a writer that has given up
/// its lock.
#[verifier::external_body]
fn rollback(engine: &mut Engine) -> (r: Result<(), tantivy::TantivyError>)
    requires
        writer_sound(*old(engine)),
    ensures
        committed(*final(engine)) == committed(*old(engine)),
        visible(*final(engine)) == visible(*old(engine)),
        r is Ok ==> staged(*final(engine)) == committed(*old(engine)) && writer_sound(
            *final(engine),
        ),
{
    engine.writer.rollback().map(|_| ())
}

/// Calls `tantivy::IndexReader::reload`: on success the reader shows the
/// last commit. The writer and the commit stay as they are.
#[verifier::external_body]
fn reload(engine: &mut Engine) -> (r: Result<(), tantivy::TantivyError>)
    ensures
        staged(*final(engine)) == staged(*old(engine)),
        committed(*final(engine)) == committed(*old(engine)),
        writer_sound(*final(engine)) == writer_sound(*old(engine)),
        r is Ok ==> visible(*final(engine)) == committed(*old(engine)),
{
    engine.reader.reload()
}

/// Parses a query with `tantivy::query::QueryParser::parse_query`, for the
/// body as the field that is searched. Whether the parser accepts a text
/// depends on the text alone, since every engine has the same schema. An
/// error of the parser comes back as `None`.
#[verifier::external_body]
fn parse(engine: &Engine, text: &str) -> (r: Option<ParsedQuery>)
    ensures
        r is Some <==> query_parses(text@),
        r is Some ==> parsed_text(r->Some_0) == text@,
{
    let parser = QueryParser::for_index(&engine.index, vec![engine.body]);
    parser.parse_query(text).ok().map(|inner| ParsedQuery { inner })
}

/// The plain value of the hits of a search.
pub open spec fn hits_view(r: Option<Vec<(u32, tantivy::DocAddress)>>) -> Option<Seq<(u32, u32, u32)>> {
    match r {
        Some(hits) => Some(
            Seq::new(hits@.len(), |i: int| (hits@[i].0, hits@[i].1.segment_ord, hits@[i].1.doc_id)),
        ),
        None => None,
    }
}

/// Runs a query with `tantivy::Searcher::search` on the reader's searcher,
/// collecting `tantivy::collector::TopDocs` by score.
///
/// The collector yields at most `limit` hits, each the address of a document
/// that the reader shows, with its score. It panics on a limit of 0 and sets
/// aside room for twice the limit before it starts. A score comes back as
/// the bits of its 32-bit float; an error of the search comes back as
/// `None`.
#[verifier::external_body]
fn top_hits(engine: &Engine, query: &ParsedQuery, limit: usize) -> (r: Option<
    Vec<(u32, tantivy::DocAddress)>,
>)
    requires
        0 < limit <= MAX_HITS,
    ensures
        hits_view(r) == found(*engine, parsed_text(*query), limit as nat),
        r is Some ==> r->Some_0@.len() <= limit && forall|i: int|
            0 <= i < r->Some_0@.len() ==> shown_documents(*engine).contains(
                ((#[trigger] r->Some_0@[i]).1.segment_ord, r->Some_0@[i].1.doc_id),
            ),
{
    let collector = TopDocs::with_limit(limit).order_by_score();
    let hits = engine.reader.searcher().search(&*query.inner, &collector).ok()?;
    Some(hits.into_iter().map(|hit| (hit.0.to_bits(), hit.1)).collect())
}

/// Fetches a document with `tantivy::Searcher::doc` from the reader's
/// searcher and reads the number that it stores as its post id. `doc` panics
/// on an address that is not among what the reader shows.
#[verifier::external_body]
fn stored_post_id(engine: &Engine, hit: tantivy::DocAddress) -> (r: Option<Option<u64>>)
    requires
        shown_documents(*engine).contains((hit.segment_ord, hit.doc_id)),
    ensures
        r == stored_number(*engine, hit.segment_ord, hit.doc_id),
{
    let fetched = engine.reader.searcher().doc::<TantivyDocument>(hit).ok();
    fetched.map(|doc| doc.get_first(engine.post_id).and_then(|v| Value::as_u64(&v)))
}

/// The entry that stands for a post.
pub open spec fn entry_of(p: PostView) -> SearchEntry {
    SearchEntry { post_id: p.id, body: p.body, author_id: p.user_id, created_at: p.created_at }
}

/// The entries that stand for a table of posts: one for each post, in the
/// order of the table.
pub open spec fn entries_of(posts: Seq<PostView>) -> Seq<SearchEntry> {
    posts.map_values(|p: PostView| entry_of(p))
}

/// Whether the index can hold the time of every post.
pub open spec fn all_indexable(posts: Seq<PostView>) -> bool {
    forall|i: int| 0 <= i < posts.len() ==> indexable_time((#[trigger] posts[i]).created_at)
}

/// Whether every hit can be fetched.
pub open spec fn all_fetched(engine: Engine, hits: Seq<(u32, u32, u32)>) -> bool {
    forall|i: int|
        0 <= i < hits.len() ==> stored_number(engine, (#[trigger] hits[i]).1, hits[i].2) is Some
}

/// What the engine returned for each hit: its score and the number that it
/// stores as its post id.
pub open spec fn fetched(engine: Engine, hits: Seq<(u32, u32, u32)>) -> Seq<Found> {
    Seq::new(
        hits.len(),
        |i: int| Found { score: hits[i].0, stored: stored_number(engine, hits[i].1, hits[i].2)->Some_0 },
    )
}

/// The result of a search of what the engine shows, for a query that parses
/// and a limit above 0: the ranked ids of what the engine finds, or the
/// failure of the search.
pub open spec fn search_answer(engine: Engine, text: Seq<char>, limit: nat) -> Result<Seq<u32>, Error> {
    match found(engine, text, limit) {
        Some(hits) => if all_fetched(engine, hits) {
            results_of(fetched(engine, hits))
        } else {
            Err(Error::SearchErr)
        },
        None => Err(Error::SearchErr),
    }
}

/// What an indexing call returns and whether it leaves the index in order,
/// given how its two steps ended: `entered`, whether the entry was added and
/// committed; `settled`, whether the step after that succeeded, which is to
/// show the commit where the entry was entered and to take back what was
/// added where it was not.
pub open spec fn indexing_outcome_spec(entered: bool, settled: bool) -> (Result<(), Error>, bool) {
    (
        if entered && settled {
            Ok(())
        } else {
            Err(Error::SearchErr)
        },
        settled,
    )
}

/// What an indexing call returns and whether it leaves the index in order,
/// given how its two steps ended.
pub fn indexing_outcome(entered: bool, settled: bool) -> (r: (Result<(), Error>, bool))
    ensures
        r == indexing_outcome_spec(entered, settled),
{
    if entered && settled {
        (Ok(()), settled)
    } else {
        (Err(Error::SearchErr), settled)
    }
}

/// Whether the index can hold this time of creation.
pub fn is_indexable_time(created_at: i64) -> (r: bool)
    ensures
        r == indexable_time(created_at),
{
    MIN_INDEXED_TIME <= created_at && created_at <= MAX_INDEXED_TIME
}

/// A full-text index over post bodies.
///
/// The index is derived: the content store holds the truth, and the index
/// can be rebuilt from it at any time. An indexing call that breaks off
/// half-way may leave the engine's writer, its commit and its reader at
/// odds; from then on the index is out of order and answers no search until
/// it is rebuilt.
pub struct SearchIndex {
    engine: Engine,
    in_order: bool,
}

impl SearchIndex {
    /// The engine of this index.
    pub closed spec fn engine(&self) -> Engine {
        self.engine
    }

    /// Whether the index is in order: no indexing call so far broke off
    /// half-way.
    pub closed spec fn healthy(&self) -> bool {
        self.in_order
    }

    /// The entries of the index: what the engine's last commit holds.
    pub open spec fn entries(&self) -> Seq<SearchEntry> {
        committed(self.engine())
    }

    /// In an index that is in order the engine's writer is sound and holds
    /// what its last commit holds, and its reader shows just that. Every
    /// index that this module hands out is so, and its methods keep it so.
    pub open spec fn wf(&self) -> bool {
        self.healthy() ==> writer_sound(self.engine()) && staged(self.engine()) == committed(
            self.engine(),
        ) && visible(self.engine()) == committed(self.engine())
    }

    /// What a search returns: a query that does not parse is refused as
    /// such, whatever else holds; an index out of order answers no search; a
    /// limit of 0 asks for nothing and gets nothing; else the engine is
    /// asked for at most [`MAX_HITS`] hits.
    pub open spec fn search_outcome(&self, query: Seq<char>, limit: nat) -> Result<Seq<u32>, Error> {
        if !query_parses(query) {
            Err(Error::QueryParseErr)
        } else if !self.healthy() {
            Err(Error::SearchErr)
        } else if limit == 0 {
            Ok(Seq::empty())
        } else if limit <= MAX_HITS {
            search_answer(self.engine(), query, limit)
        } else {
            search_answer(self.engine(), query, MAX_HITS as nat)
        }
    }

    /// Whether the index is in order.
    pub fn is_healthy(&self) -> (b: bool)
        ensures
            b == self.healthy(),
    {
        self.in_order
    }

    /// A new index without entries.
    pub fn new() -> (r: Result<SearchIndex, Error>)
        ensures
            r is Ok ==> r->Ok_0.wf() && r->Ok_0.healthy() && r->Ok_0.entries().len() == 0,
            r is Err ==> r->Err_0 == Error::SearchErr,
    {
        proof {
            reveal_strlit("body");
            reveal_strlit("post_id");
            reveal_strlit("user_id");
            reveal_strlit("created_at");
        }
        let opened = open_engine(
            BODY_FIELD,
            POST_ID_FIELD,
            USER_ID_FIELD,
            CREATED_AT_FIELD,
            WRITER_THREADS,
            WRITER_MEMORY,
        );
        match opened {
            Ok(engine) => {
                proof {
                    assert(staged(engine) =~= committed(engine));
                    assert(visible(engine) =~= committed(engine));
                }
                Ok(SearchIndex { engine, in_order: true })
            },
            Err(_) => Err(Error::SearchErr),
        }
    }

    /// Adds a searchable entry for a post and makes it visible to searches.
    ///
    /// The entry is added and committed, and then the commit is shown.
    /// Where adding fails, what was added is taken back; where that fails
    /// too, or the commit fails, or the commit cannot be shown, the index is
    /// out of order from then on. An index out of order takes no entry, and
    /// no index takes a time that it cannot hold.
    pub fn index_post(&mut self, post_id: u32, body: &str, author_id: u32, created_at: i64) -> (r:
        Result<(), Error>)
        requires
            old(self).wf(),
        ensures
            final(self).wf(),
            r is Ok ==> old(self).healthy() && final(self).healthy() && indexable_time(created_at),
            r is Ok ==> final(self).entries() == old(self).entries().push(
                SearchEntry { post_id, body: body@, author_id, created_at },
            ),
            r is Err ==> r->Err_0 == Error::SearchErr,
            r is Err && final(self).healthy() ==> final(self).entries() == old(self).entries(),
            !old(self).healthy() || !indexable_time(created_at) ==> r is Err && *final(self) == *old(
                self,
            ),
    {
        if !self.in_order || !is_indexable_time(created_at) {
            return Err(Error::SearchErr);
        }
        let staged = stage(&mut self.engine, post_id, body, author_id, created_at).is_ok();
        let entered = staged && commit(&mut self.engine).is_ok();
        let settled = if entered {
            reload(&mut self.engine).is_ok()
        } else if staged {
            false
        } else {
            rollback(&mut self.engine).is_ok()
        };
        let (result, in_order) = indexing_outcome(entered, settled);
        self.in_order = in_order;
        result
    }

    /// Fetches, for each hit of a search, the number that it stores as its
    /// post id, and pairs it with the hit's score.
    fn stored_numbers(&self, hits: &Vec<(u32, tantivy::DocAddress)>) -> (r: Result<Vec<Found>, Error>)
        requires
            forall|i: int|
                0 <= i < hits@.len() ==> shown_documents(self.engine()).contains(
                    ((#[trigger] hits@[i]).1.segment_ord, hits@[i].1.doc_id),
                ),
        ensures
            match r {
                Ok(found) => all_fetched(self.engine(), hits_view(Some(*hits))->Some_0) && found@
                    == fetched(self.engine(), hits_view(Some(*hits))->Some_0),
                Err(e) => e == Error::SearchErr && !all_fetched(
                    self.engine(),
                    hits_view(Some(*hits))->Some_0,
                ),
            },
    {
        let ghost plain = hits_view(Some(*hits))->Some_0;
        let mut found: Vec<Found> = Vec::new();
        let mut i: usize = 0;
        while i < hits.len()
            invariant
                i <= hits.len(),
                plain == hits_view(Some(*hits))->Some_0,
                found.len() == i,
                forall|k: int|
                    0 <= k < i ==> stored_number(self.engine(), (#[trigger] plain[k]).1, plain[k].2)
                        == Some(found@[k].stored) && found@[k].score == plain[k].0,
                forall|i: int|
                    0 <= i < hits@.len() ==> shown_documents(self.engine()).contains(
                        ((#[trigger] hits@[i]).1.segment_ord, hits@[i].1.doc_id),
                    ),
            decreases hits.len() - i,
        {
            proof {
                let hit = hits@[i as int];
                assert(plain[i as int] == (hit.0, hit.1.segment_ord, hit.1.doc_id));
            }
            match stored_post_id(&self.engine, hits[i].1) {
                Some(stored) => found.push(Found { score: hits[i].0, stored }),
                None => {
                    proof {
                        let missed = plain[i as int];
                        assert(stored_number(self.engine(), missed.1, missed.2) is None);
                    }
                    return Err(Error::SearchErr);
                },
            }
            i += 1;
        }
        proof {
            assert(found@ =~= fetched(self.engine(), plain));
        }
        Ok(found)
    }

    /// Searches the post bodies and returns the ids of the best matches:
    /// ranked, no id twice, at most `limit` of them and never more than
    /// [`MAX_HITS`].
    ///
    /// The query is parsed before anything else: a query that does not parse
    /// is refused as such, whatever the state of the index and the limit.
    /// Which posts match a query, and with what score, the engine decides;
    /// what is returned is the ranking of what the engine found.
    pub fn search(&self, query: &str, limit: usize) -> (r: Result<Vec<u32>, Error>)
        ensures
            is_result(r, self.search_outcome(query@, limit as nat)),
            !query_parses(query@) ==> r == Err::<Vec<u32>, Error>(Error::QueryParseErr),
            r is Ok ==> r->Ok_0@.len() <= limit && r->Ok_0@.len() <= MAX_HITS && r->Ok_0@.no_duplicates(),
            r is Err ==> r->Err_0 == Error::QueryParseErr || r->Err_0 == Error::SearchErr,
    {
        let parsed = match parse(&self.engine, query) {
            Some(p) => p,
            None => { return Err(Error::QueryParseErr); },
        };
        if !self.in_order {
            return Err(Error::SearchErr);
        }
        if limit == 0 {
            return Ok(Vec::new());
        }
        let asked = if limit <= MAX_HITS {
            limit
        } else {
            MAX_HITS
        };
        let hits = match top_hits(&self.engine, &parsed, asked) {
            Some(h) => h,
            None => { return Err(Error::SearchErr); },
        };
        match self.stored_numbers(&hits) {
            Ok(found) => results(&found),
            Err(e) => Err(e),
        }
    }

    /// Rebuilds the index from the posts of the content store.
    ///
    /// The new index is built aside and replaces the old one only when it is
    /// complete: searches see the old index or the new one, never a part, and
    /// a rebuild that fails leaves the index as it was. A rebuild that
    /// succeeds puts the index in order, with one entry for each post. It
    /// fails where the index cannot hold the time of a post.
    pub fn reindex_all(&mut self, posts: &Vec<Post>) -> (r: Result<(), Error>)
        ensures
            old(self).wf() ==> final(self).wf(),
            r is Ok ==> final(self).wf() && final(self).healthy() && final(self).entries()
                == entries_of(posts_view(posts@)),
            r is Ok ==> all_indexable(posts_view(posts@)),
            r is Err ==> r->Err_0 == Error::SearchErr && *final(self) == *old(self),
            !all_indexable(posts_view(posts@)) ==> r is Err,
    {
        let mut fresh = match SearchIndex::new() {
            Ok(f) => f,
            Err(e) => { return Err(e); },
        };
        let ghost rows = posts_view(posts@);
        let mut i: usize = 0;
        proof {
            assert(staged(fresh.engine()) =~= entries_of(rows.take(0)));
        }
        while i < posts.len()
            invariant
                i <= posts.len(),
                rows == posts_view(posts@),
                all_indexable(rows.take(i as int)),
                writer_sound(fresh.engine()),
                staged(fresh.engine()) == entries_of(rows.take(i as int)),
            decreases posts.len() - i,
        {
            let post = &posts[i];
            proof {
                assert(rows[i as int] == post@);
            }
            if !is_indexable_time(post.created_at) {
                return Err(Error::SearchErr);
            }
            if stage(
                &mut fresh.engine,
                post.id,
                post.body.as_str(),
                post.user_id,
                post.created_at,
            ).is_err() {
                return Err(Error::SearchErr);
            }
            proof {
                assert(entries_of(rows.take(i + 1)) =~= entries_of(rows.take(i as int)).push(
                    entry_of(post@),
                ));
                assert forall|k: int| 0 <= k < i + 1 implies indexable_time(
                    (#[trigger] rows.take(i + 1)[k]).created_at,
                ) by {
                    if k < i {
                        assert(rows.take(i + 1)[k] == rows.take(i as int)[k]);
                    }
                }
            }
            i += 1;
        }
        proof {
            assert(rows.take(i as int) =~= rows);
        }
        if commit(&mut fresh.engine).is_err() {
            return Err(Error::SearchErr);
        }
        if reload(&mut fresh.engine).is_err() {
            return Err(Error::SearchErr);
        }
        fresh.in_order = true;
        *self = fresh;
        Ok(())
    }
}

} // verus!
