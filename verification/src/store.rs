//! The canonical store: the frontier, the documents read from crawled
//! pages, their images, and the history of searches.
//!
//! Documents are written by the ingestion transaction alone, in the same
//! step that marks the job `Complete`. So a document's URL always belongs to
//! a `Complete` job, and no URL has two documents.

use crate::frontier::{
    after_claim, after_complete, after_enqueue, after_extend, after_fail, after_lease,
    complete_verdict, evolves, lemma_after_claim, lemma_after_complete, lemma_after_enqueue,
    lemma_after_extend, lemma_after_fail, lemma_after_lease, rows_wf, Frontier, FrontierError,
    Job, JobModel, Status, Timestamp, MAX_ROWS, MAX_TIME,
};
use crate::payload::{Body, BodyModel, HtmlBody, HtmlBodyModel, ImageEntry, ImageEntryModel, Size};
use crate::text::{begins_with, copy_text, copy_texts, starts_with};
use vstd::prelude::*;

verus! {

/// A crawled page as the store keeps it.
#[derive(Debug)]
pub struct Document {
    pub id: i32,
    pub url: String,
    pub title: Option<String>,
    pub description: Option<String>,
    pub icon_url: Option<String>,
    pub text_fields: Vec<String>,
    pub sections: Vec<String>,
    pub keywords: Vec<String>,
    pub site_name: Option<String>,
    pub site_short_name: Option<String>,
    pub site_description: Option<String>,
    pub site_categories: Vec<String>,
    pub created_at: Timestamp,
}

/// What a document holds; its id follows from its position.
pub struct DocumentModel {
    pub url: Seq<char>,
    pub title: Option<Seq<char>>,
    pub description: Option<Seq<char>>,
    pub icon_url: Option<Seq<char>>,
    pub text_fields: Seq<Seq<char>>,
    pub sections: Seq<Seq<char>>,
    pub keywords: Seq<Seq<char>>,
    pub site_name: Option<Seq<char>>,
    pub site_short_name: Option<Seq<char>>,
    pub site_description: Option<Seq<char>>,
    pub site_categories: Seq<Seq<char>>,
    pub created_at: int,
}

impl DeepView for Document {
    type V = DocumentModel;

    open spec fn deep_view(&self) -> DocumentModel {
        DocumentModel {
            url: self.url@,
            title: self.title.deep_view(),
            description: self.description.deep_view(),
            icon_url: self.icon_url.deep_view(),
            text_fields: self.text_fields.deep_view(),
            sections: self.sections.deep_view(),
            keywords: self.keywords.deep_view(),
            site_name: self.site_name.deep_view(),
            site_short_name: self.site_short_name.deep_view(),
            site_description: self.site_description.deep_view(),
            site_categories: self.site_categories.deep_view(),
            created_at: self.created_at as int,
        }
    }
}

/// An image of a crawled page as the store keeps it.
#[derive(Debug)]
pub struct ImageRow {
    pub id: i32,
    pub url: String,
    /// The id of the document that shows the image.
    pub source: i32,
    pub width: Option<i32>,
    pub height: Option<i32>,
    pub alt_text: Option<String>,
    pub created_at: Timestamp,
}

pub struct ImageRowModel {
    pub url: Seq<char>,
    pub source: int,
    pub width: Option<i32>,
    pub height: Option<i32>,
    pub alt_text: Option<Seq<char>>,
    pub created_at: int,
}

impl DeepView for ImageRow {
    type V = ImageRowModel;

    open spec fn deep_view(&self) -> ImageRowModel {
        ImageRowModel {
            url: self.url@,
            source: self.source as int,
            width: self.width,
            height: self.height,
            alt_text: self.alt_text.deep_view(),
            created_at: self.created_at as int,
        }
    }
}

/// A query that was searched for, and how often.
#[derive(Debug)]
pub struct SearchEntry {
    pub id: i32,
    pub text: String,
    pub count: i32,
    pub last_updated_at: Timestamp,
    pub created_at: Timestamp,
}

pub struct SearchEntryModel {
    pub text: Seq<char>,
    pub count: int,
    pub last_updated_at: int,
    pub created_at: int,
}

impl DeepView for SearchEntry {
    type V = SearchEntryModel;

    open spec fn deep_view(&self) -> SearchEntryModel {
        SearchEntryModel {
            text: self.text@,
            count: self.count as int,
            last_updated_at: self.last_updated_at as int,
            created_at: self.created_at as int,
        }
    }
}

/// The whole store, as mathematical values.
pub struct DbModel {
    pub jobs: Seq<JobModel>,
    pub documents: Seq<DocumentModel>,
    pub images: Seq<ImageRowModel>,
    pub history: Seq<SearchEntryModel>,
}

/// The site name that a manifest gives, if there is a manifest.
pub open spec fn site_name_of(body: HtmlBodyModel) -> Option<Seq<char>> {
    match body.manifest {
        Some(manifest) => manifest.name,
        None => None,
    }
}

pub open spec fn site_short_name_of(body: HtmlBodyModel) -> Option<Seq<char>> {
    match body.manifest {
        Some(manifest) => manifest.short_name,
        None => None,
    }
}

pub open spec fn site_description_of(body: HtmlBodyModel) -> Option<Seq<char>> {
    match body.manifest {
        Some(manifest) => manifest.description,
        None => None,
    }
}

pub open spec fn site_categories_of(body: HtmlBodyModel) -> Seq<Seq<char>> {
    match body.manifest {
        Some(manifest) => manifest.categories,
        None => Seq::empty(),
    }
}

/// The document that is stored for the page at `url`.
pub open spec fn document_row(url: Seq<char>, body: HtmlBodyModel, now: int) -> DocumentModel {
    DocumentModel {
        url,
        title: body.title,
        description: body.description,
        icon_url: body.icon_url,
        text_fields: body.text_fields,
        sections: body.sections,
        keywords: body.keywords,
        site_name: site_name_of(body),
        site_short_name: site_short_name_of(body),
        site_description: site_description_of(body),
        site_categories: site_categories_of(body),
        created_at: now,
    }
}

pub open spec fn width_of(size: Option<Size>) -> Option<i32> {
    match size {
        Some(s) => Some(s.width),
        None => None,
    }
}

pub open spec fn height_of(size: Option<Size>) -> Option<i32> {
    match size {
        Some(s) => Some(s.height),
        None => None,
    }
}

/// The row that is stored for an image of document `source`.
pub open spec fn image_row(entry: ImageEntryModel, source: int, now: int) -> ImageRowModel {
    ImageRowModel {
        url: entry.image_url,
        source,
        width: width_of(entry.size),
        height: height_of(entry.size),
        alt_text: entry.alt_text,
        created_at: now,
    }
}

pub open spec fn image_rows(entries: Seq<ImageEntryModel>, source: int, now: int) -> Seq<
    ImageRowModel,
> {
    Seq::new(entries.len(), |i: int| image_row(entries[i], source, now))
}

/// The frontier after `enqueue_if_absent` of each of `links` in turn.
pub open spec fn enqueue_all(jobs: Seq<JobModel>, links: Seq<Seq<char>>, now: int) -> Seq<JobModel>
    decreases links.len(),
{
    if links.len() == 0 {
        jobs
    } else {
        after_enqueue(enqueue_all(jobs, links.drop_last(), now), links.last(), now)
    }
}

/// Some row with this URL is `Complete`.
pub open spec fn has_complete_job(jobs: Seq<JobModel>, url: Seq<char>) -> bool {
    exists|i: int|
        0 <= i < jobs.len() && (#[trigger] jobs[i]).url == url && jobs[i].status
            == Status::Complete
}

/// No URL has two documents.
pub open spec fn documents_unique(documents: Seq<DocumentModel>) -> bool {
    forall|i: int, j: int|
        0 <= i < j < documents.len() ==> (#[trigger] documents[i]).url != (
        #[trigger] documents[j]).url
}

/// No text occurs in two entries of the search history.
pub open spec fn history_unique(history: Seq<SearchEntryModel>) -> bool {
    forall|i: int, j: int|
        0 <= i < j < history.len() ==> (#[trigger] history[i]).text != (#[trigger] history[j]).text
}

pub open spec fn db_wf(db: DbModel) -> bool {
    &&& rows_wf(db.jobs)
    &&& db.documents.len() <= MAX_ROWS
    &&& db.images.len() <= MAX_ROWS
    &&& db.history.len() <= MAX_ROWS
    &&& documents_unique(db.documents)
    &&& forall|d: int|
        0 <= d < db.documents.len() ==> has_complete_job(db.jobs, (#[trigger] db.documents[d]).url)
    &&& forall|k: int|
        0 <= k < db.images.len() ==> 1 <= (#[trigger] db.images[k]).source <= db.documents.len()
    &&& history_unique(db.history)
    &&& forall|h: int| 0 <= h < db.history.len() ==> 1 <= (#[trigger] db.history[h]).count
}

/// Whether the body is an HTML page, for which a document is stored.
pub open spec fn html_of(body: Option<BodyModel>) -> Option<HtmlBodyModel> {
    match body {
        Some(BodyModel::Html(html)) => Some(html),
        _ => None,
    }
}

/// Whether the tables have room for what the ingestion of a result adds.
pub open spec fn has_room(db: DbModel, links: Seq<Seq<char>>, body: Option<BodyModel>) -> bool {
    &&& db.jobs.len() + links.len() <= MAX_ROWS
    &&& html_of(body) matches Some(html) ==> {
        &&& db.documents.len() < MAX_ROWS
        &&& db.images.len() + html.images.len() <= MAX_ROWS
    }
}

/// What `ingest` answers: the job must be held under the lease that is
/// named, that lease must be live, and the tables must have room.
pub open spec fn ingest_verdict(
    db: DbModel,
    id: int,
    url: Seq<char>,
    lease: int,
    links: Seq<Seq<char>>,
    body: Option<BodyModel>,
    now: int,
) -> Result<(), FrontierError> {
    match complete_verdict(db.jobs, id, url, lease, now) {
        Err(e) => Err(e),
        Ok(_) => if has_room(db, links, body) {
            Ok(())
        } else {
            Err(FrontierError::Full)
        },
    }
}

/// The store after `ingest`: the job is `Complete`, each link is known, and
/// an HTML page has its document and its image rows. A refused ingestion
/// changes nothing.
pub open spec fn after_ingest(
    db: DbModel,
    id: int,
    url: Seq<char>,
    lease: int,
    links: Seq<Seq<char>>,
    body: Option<BodyModel>,
    now: int,
) -> DbModel {
    if ingest_verdict(db, id, url, lease, links, body, now) is Ok {
        let jobs = enqueue_all(after_complete(db.jobs, id, url, lease, now), links, now);
        match html_of(body) {
            Some(html) => DbModel {
                jobs,
                documents: db.documents.push(document_row(url, html, now)),
                images: db.images + image_rows(html.images, db.documents.len() as int + 1, now),
                history: db.history,
            },
            None => DbModel { jobs, ..db },
        }
    } else {
        db
    }
}

/// The position of the entry with this text, or the number of entries.
pub open spec fn history_position(history: Seq<SearchEntryModel>, text: Seq<char>, from: int) -> int
    decreases history.len() - from,
{
    if from >= history.len() {
        history.len() as int
    } else if history[from].text == text {
        from
    } else {
        history_position(history, text, from + 1)
    }
}

/// The entry after one more search for its text at `now`.
pub open spec fn bumped(entry: SearchEntryModel, now: int) -> SearchEntryModel {
    SearchEntryModel {
        count: if entry.count < 0x7fff_ffff {
            entry.count + 1
        } else {
            entry.count
        },
        last_updated_at: now,
        ..entry
    }
}

/// The history after a search for `text` at `now`: an empty text is not
/// recorded; a known text is counted once more; a new text gets an entry
/// with count 1, unless the table is full.
pub open spec fn after_search(history: Seq<SearchEntryModel>, text: Seq<char>, now: int) -> Seq<
    SearchEntryModel,
> {
    let at = history_position(history, text, 0);
    if text.len() == 0 {
        history
    } else if at < history.len() {
        history.update(at, bumped(history[at], now))
    } else if history.len() < MAX_ROWS {
        history.push(SearchEntryModel { text, count: 1, last_updated_at: now, created_at: now })
    } else {
        history
    }
}

/// The texts of the history that begin with `prefix`, in row order.
pub open spec fn completions(history: Seq<SearchEntryModel>, prefix: Seq<char>) -> Seq<Seq<char>>
    decreases history.len(),
{
    if history.len() == 0 {
        Seq::empty()
    } else if begins_with(history.last().text, prefix) {
        completions(history.drop_last(), prefix).push(history.last().text)
    } else {
        completions(history.drop_last(), prefix)
    }
}

/// `history_position` finds the first entry with the text.
pub proof fn lemma_history_position(history: Seq<SearchEntryModel>, text: Seq<char>, from: int)
    requires
        0 <= from <= history.len(),
    ensures
        from <= history_position(history, text, from) <= history.len(),
        history_position(history, text, from) < history.len() ==> history[history_position(
            history,
            text,
            from,
        )].text == text,
        forall|k: int|
            from <= k < history_position(history, text, from) ==> (#[trigger] history[k]).text
                != text,
    decreases history.len() - from,
{
    if from < history.len() && history[from].text != text {
        lemma_history_position(history, text, from + 1);
    }
}

/// A `Complete` job stays one as the frontier evolves.
pub proof fn lemma_evolves_keeps_complete(
    before: Seq<JobModel>,
    after: Seq<JobModel>,
    url: Seq<char>,
)
    requires
        evolves(before, after),
        has_complete_job(before, url),
    ensures
        has_complete_job(after, url),
{
    let i = choose|i: int|
        0 <= i < before.len() && (#[trigger] before[i]).url == url && before[i].status
            == Status::Complete;
    assert(after[i].url == url && after[i].status == Status::Complete);
}

/// Evolution of the frontier composes.
pub proof fn lemma_evolves_trans(a: Seq<JobModel>, b: Seq<JobModel>, c: Seq<JobModel>)
    requires
        evolves(a, b),
        evolves(b, c),
    ensures
        evolves(a, c),
{
    assert forall|i: int| 0 <= i < a.len() implies {
        &&& (#[trigger] c[i]).url == a[i].url
        &&& c[i].created_at == a[i].created_at
        &&& a[i].status == Status::Complete ==> c[i] == a[i]
    } by {
        assert(b[i].url == a[i].url);
    }
}

/// Enqueuing links keeps the rows well formed, adds at most one row for
/// each link, and leaves the rows that exist as they are.
pub proof fn lemma_enqueue_all(jobs: Seq<JobModel>, links: Seq<Seq<char>>, now: int)
    requires
        rows_wf(jobs),
    ensures
        rows_wf(enqueue_all(jobs, links, now)),
        evolves(jobs, enqueue_all(jobs, links, now)),
        jobs.len() <= enqueue_all(jobs, links, now).len() <= jobs.len() + links.len(),
        forall|i: int| 0 <= i < jobs.len() ==> enqueue_all(jobs, links, now)[i] == jobs[i],
    decreases links.len(),
{
    if links.len() > 0 {
        let mid = enqueue_all(jobs, links.drop_last(), now);
        lemma_enqueue_all(jobs, links.drop_last(), now);
        lemma_after_enqueue(mid, links.last(), now);
        lemma_evolves_trans(jobs, mid, after_enqueue(mid, links.last(), now));
    }
}

/// As the frontier evolves beside unchanged documents, the store stays well
/// formed.
pub proof fn lemma_frontier_step(db: DbModel, jobs: Seq<JobModel>)
    requires
        db_wf(db),
        rows_wf(jobs),
        evolves(db.jobs, jobs),
    ensures
        db_wf(DbModel { jobs, ..db }),
{
    let next = DbModel { jobs, ..db };
    assert forall|d: int| 0 <= d < next.documents.len() implies has_complete_job(
        next.jobs,
        (#[trigger] next.documents[d]).url,
    ) by {
        lemma_evolves_keeps_complete(db.jobs, jobs, db.documents[d].url);
    }
}

/// Ingestion keeps the store well formed.
pub proof fn lemma_after_ingest(
    db: DbModel,
    id: int,
    url: Seq<char>,
    lease: int,
    links: Seq<Seq<char>>,
    body: Option<BodyModel>,
    now: int,
)
    requires
        db_wf(db),
    ensures
        db_wf(after_ingest(db, id, url, lease, links, body, now)),
        evolves(db.jobs, after_ingest(db, id, url, lease, links, body, now).jobs),
{
    let next = after_ingest(db, id, url, lease, links, body, now);
    if ingest_verdict(db, id, url, lease, links, body, now) is Ok {
        let done = after_complete(db.jobs, id, url, lease, now);
        lemma_after_complete(db.jobs, id, url, lease, now);
        lemma_enqueue_all(done, links, now);
        lemma_evolves_trans(db.jobs, done, next.jobs);
        assert(done[id - 1].url == url && done[id - 1].status == Status::Complete);
        assert(next.jobs[id - 1] == done[id - 1]);
        assert(has_complete_job(next.jobs, url));
        assert forall|d: int| 0 <= d < next.documents.len() implies has_complete_job(
            next.jobs,
            (#[trigger] next.documents[d]).url,
        ) by {
            if d < db.documents.len() {
                lemma_evolves_keeps_complete(db.jobs, next.jobs, db.documents[d].url);
            }
        }
        assert forall|i: int, j: int| 0 <= i < j < next.documents.len() implies (
        #[trigger] next.documents[i]).url != (#[trigger] next.documents[j]).url by {
            if j == db.documents.len() {
                // A document with this URL would belong to a `Complete` job,
                // but the only job with this URL was `Executing`.
                if db.documents[i].url == url {
                    let k = choose|k: int|
                        0 <= k < db.jobs.len() && (#[trigger] db.jobs[k]).url == url
                            && db.jobs[k].status == Status::Complete;
                    if k < id - 1 {
                        assert(db.jobs[k].url != db.jobs[id - 1].url);
                    } else if k > id - 1 {
                        assert(db.jobs[id - 1].url != db.jobs[k].url);
                    }
                }
            } else {
                assert(db.documents[i].url != db.documents[j].url);
            }
        }
        assert forall|k: int| 0 <= k < next.images.len() implies 1 <= (
        #[trigger] next.images[k]).source <= next.documents.len() by {
            if k < db.images.len() {
                assert(next.images[k] == db.images[k]);
            }
        }
    }
}

/// Recording a search keeps the history's texts distinct and its counts
/// positive.
pub proof fn lemma_after_search(db: DbModel, text: Seq<char>, now: int)
    requires
        db_wf(db),
    ensures
        db_wf(DbModel { history: after_search(db.history, text, now), ..db }),
{
    let history = db.history;
    let after = after_search(history, text, now);
    lemma_history_position(history, text, 0);
    assert forall|i: int, j: int| 0 <= i < j < after.len() implies (#[trigger] after[i]).text != (
    #[trigger] after[j]).text by {
        if j < history.len() {
            assert(history[i].text != history[j].text);
        } else {
            assert(history[i].text != text);
        }
    }
    assert forall|h: int| 0 <= h < after.len() implies 1 <= (#[trigger] after[h]).count by {
        if h < history.len() {
            assert(1 <= history[h].count);
        }
    }
}

/// The canonical store.
pub struct Database {
    frontier: Frontier,
    documents: Vec<Document>,
    images: Vec<ImageRow>,
    history: Vec<SearchEntry>,
}

impl View for Database {
    type V = DbModel;

    closed spec fn view(&self) -> DbModel {
        DbModel {
            jobs: self.frontier@,
            documents: self.documents.deep_view(),
            images: self.images.deep_view(),
            history: self.history.deep_view(),
        }
    }
}

impl Database {
    /// Each row's id is its position plus one.
    pub closed spec fn ids_follow(&self) -> bool {
        &&& self.frontier.ids_follow()
        &&& forall|i: int|
            0 <= i < self.documents@.len() ==> (#[trigger] self.documents@[i]).id == i + 1
        &&& forall|i: int| 0 <= i < self.images@.len() ==> (#[trigger] self.images@[i]).id == i + 1
        &&& forall|i: int|
            0 <= i < self.history@.len() ==> (#[trigger] self.history@[i]).id == i + 1
    }

    pub open spec fn wf(&self) -> bool {
        self.ids_follow() && db_wf(self@)
    }

    /// An empty store.
    pub fn new() -> (db: Database)
        ensures
            db.wf(),
            db@.jobs.len() == 0,
            db@.documents.len() == 0,
            db@.images.len() == 0,
            db@.history.len() == 0,
    {
        Database {
            frontier: Frontier::new(),
            documents: Vec::new(),
            images: Vec::new(),
            history: Vec::new(),
        }
    }

    /// The frontier, to read.
    pub fn frontier(&self) -> (f: &Frontier)
        requires
            self.wf(),
        ensures
            f.wf(),
            f@ == self@.jobs,
    {
        &self.frontier
    }

    /// The number of documents.
    pub fn document_count(&self) -> (n: usize)
        ensures
            n == self@.documents.len(),
    {
        self.documents.len()
    }

    /// The number of image rows.
    pub fn image_count(&self) -> (n: usize)
        ensures
            n == self@.images.len(),
    {
        self.images.len()
    }

    /// The document with this id, if there is one.
    pub fn document(&self, id: i32) -> (r: Option<&Document>)
        requires
            self.wf(),
        ensures
            r is Some == (1 <= id <= self@.documents.len()),
            r matches Some(doc) ==> doc.deep_view() == self@.documents[id - 1] && doc.id == id,
    {
        if id >= 1 && (id as usize) <= self.documents.len() {
            Some(&self.documents[(id - 1) as usize])
        } else {
            None
        }
    }

    /// The image row with this id, if there is one.
    pub fn image(&self, id: i32) -> (r: Option<&ImageRow>)
        requires
            self.wf(),
        ensures
            r is Some == (1 <= id <= self@.images.len()),
            r matches Some(row) ==> row.deep_view() == self@.images[id - 1] && row.id == id,
    {
        if id >= 1 && (id as usize) <= self.images.len() {
            Some(&self.images[(id - 1) as usize])
        } else {
            None
        }
    }

    /// Inserts a `Queued` row for `url`; a known URL is refused.
    pub fn enqueue(&mut self, url: &str, now: Timestamp) -> (r: Result<i32, FrontierError>)
        requires
            old(self).wf(),
        ensures
            final(self).wf(),
            final(self)@ == (DbModel {
                jobs: after_enqueue(old(self)@.jobs, url@, now as int),
                ..old(self)@
            }),
            r == if crate::frontier::knows(old(self)@.jobs, url@) {
                Err::<i32, FrontierError>(FrontierError::DuplicateUrl)
            } else if old(self)@.jobs.len() >= MAX_ROWS {
                Err(FrontierError::Full)
            } else {
                Ok((old(self)@.jobs.len() + 1) as i32)
            },
    {
        proof {
            lemma_after_enqueue(self@.jobs, url@, now as int);
            lemma_frontier_step(self@, after_enqueue(self@.jobs, url@, now as int));
        }
        self.frontier.enqueue(url, now)
    }

    /// Inserts a `Queued` row for `url` unless the URL is known.
    pub fn enqueue_if_absent(&mut self, url: &str, now: Timestamp) -> (inserted: bool)
        requires
            old(self).wf(),
        ensures
            final(self).wf(),
            final(self)@ == (DbModel {
                jobs: after_enqueue(old(self)@.jobs, url@, now as int),
                ..old(self)@
            }),
            inserted == (!crate::frontier::knows(old(self)@.jobs, url@) && old(self)@.jobs.len()
                < MAX_ROWS),
    {
        proof {
            lemma_after_enqueue(self@.jobs, url@, now as int);
            lemma_frontier_step(self@, after_enqueue(self@.jobs, url@, now as int));
        }
        self.frontier.enqueue_if_absent(url, now)
    }

    /// Hands out the first row that can be handed out at `now`.
    pub fn claim_next(&mut self, now: Timestamp) -> (r: Option<Job>)
        requires
            old(self).wf(),
            now <= MAX_TIME,
        ensures
            final(self).wf(),
            final(self)@ == (DbModel { jobs: after_claim(old(self)@.jobs, now as int), ..old(self)@ }),
            r is Some == (crate::frontier::next_claimable(old(self)@.jobs, now as int, 0) < old(
                self,
            )@.jobs.len()),
            r matches Some(job) ==> {
                &&& job.id == crate::frontier::next_claimable(old(self)@.jobs, now as int, 0) + 1
                &&& job@ == crate::frontier::leased(old(self)@.jobs[job.id - 1], now as int)
            },
    {
        proof {
            lemma_after_claim(self@.jobs, now as int);
            lemma_frontier_step(self@, after_claim(self@.jobs, now as int));
        }
        self.frontier.claim_next(now)
    }

    /// Grants a lease on row `id` to a caller that saw it with
    /// `last_updated == seen`, if nobody has touched the row since.
    pub fn lease(&mut self, id: i32, seen: Timestamp, now: Timestamp) -> (granted: bool)
        requires
            old(self).wf(),
            now <= MAX_TIME,
        ensures
            final(self).wf(),
            granted == crate::frontier::lease_granted(
                old(self)@.jobs,
                id as int,
                seen as int,
                now as int,
            ),
            final(self)@ == (DbModel {
                jobs: after_lease(old(self)@.jobs, id as int, seen as int, now as int),
                ..old(self)@
            }),
    {
        proof {
            lemma_after_lease(self@.jobs, id as int, seen as int, now as int);
            lemma_frontier_step(
                self@,
                after_lease(self@.jobs, id as int, seen as int, now as int),
            );
        }
        self.frontier.lease(id, seen, now)
    }

    /// Puts row `id`, held under the lease `lease`, back in the queue.
    pub fn fail(&mut self, id: i32, url: &str, lease: Timestamp, now: Timestamp) -> (r: Result<
        (),
        FrontierError,
    >)
        requires
            old(self).wf(),
        ensures
            final(self).wf(),
            r == crate::frontier::active_verdict(old(self)@.jobs, id as int, url@, lease as int),
            final(self)@ == (DbModel {
                jobs: after_fail(old(self)@.jobs, id as int, url@, lease as int, now as int),
                ..old(self)@
            }),
    {
        proof {
            lemma_after_fail(self@.jobs, id as int, url@, lease as int, now as int);
            lemma_frontier_step(
                self@,
                after_fail(self@.jobs, id as int, url@, lease as int, now as int),
            );
        }
        self.frontier.fail(id, url, lease, now)
    }

    /// Renews the lease `lease` on row `id`; the renewed lease is known by
    /// `now`.
    pub fn extend_lease(&mut self, id: i32, url: &str, lease: Timestamp, now: Timestamp) -> (r: Result<
        (),
        FrontierError,
    >)
        requires
            old(self).wf(),
            now <= MAX_TIME,
        ensures
            final(self).wf(),
            r == crate::frontier::active_verdict(old(self)@.jobs, id as int, url@, lease as int),
            final(self)@ == (DbModel {
                jobs: after_extend(old(self)@.jobs, id as int, url@, lease as int, now as int),
                ..old(self)@
            }),
    {
        proof {
            lemma_after_extend(self@.jobs, id as int, url@, lease as int, now as int);
            lemma_frontier_step(
                self@,
                after_extend(self@.jobs, id as int, url@, lease as int, now as int),
            );
        }
        self.frontier.extend_lease(id, url, lease, now)
    }

    /// Checks whether `ingest` would record this result at `now`.
    pub fn check_ingest(
        &self,
        id: i32,
        url: &str,
        lease: Timestamp,
        links: &Vec<String>,
        body: &Option<Body>,
        now: Timestamp,
    ) -> (r: Result<(), FrontierError>)
        requires
            self.wf(),
        ensures
            r == ingest_verdict(
                self@,
                id as int,
                url@,
                lease as int,
                links.deep_view(),
                body.deep_view(),
                now as int,
            ),
    {
        match self.frontier.check_lease(id, url, lease, now) {
            Err(e) => {
                return Err(e);
            },
            Ok(()) => {},
        }
        if links.len() > MAX_ROWS - self.frontier.len() {
            return Err(FrontierError::Full);
        }
        match body {
            Some(Body::Html(html)) => {
                if self.documents.len() >= MAX_ROWS || html.images.len() > MAX_ROWS
                    - self.images.len() {
                    return Err(FrontierError::Full);
                }
            },
            _ => {},
        }
        Ok(())
    }

    /// The ingestion transaction. The job must have this id and URL and be
    /// held under the lease `lease`, live at `now`. Then the job becomes
    /// `Complete`, each of `links` that is not yet known is queued, and for
    /// an HTML page a document is stored, with a row for each of its images.
    /// Returns the id of the new document, if one was stored. A refused
    /// ingestion changes nothing.
    #[verifier::loop_isolation(false)]
    pub fn ingest(
        &mut self,
        id: i32,
        url: &str,
        lease: Timestamp,
        links: &Vec<String>,
        body: Option<Body>,
        now: Timestamp,
    ) -> (r: Result<Option<i32>, FrontierError>)
        requires
            old(self).wf(),
        ensures
            final(self).wf(),
            final(self)@ == after_ingest(
                old(self)@,
                id as int,
                url@,
                lease as int,
                links.deep_view(),
                body.deep_view(),
                now as int,
            ),
            r == match ingest_verdict(
                old(self)@,
                id as int,
                url@,
                lease as int,
                links.deep_view(),
                body.deep_view(),
                now as int,
            ) {
                Err(e) => Err::<Option<i32>, FrontierError>(e),
                Ok(_) => if html_of(body.deep_view()) is Some {
                    Ok(Some((old(self)@.documents.len() + 1) as i32))
                } else {
                    Ok(None)
                },
            },
    {
        let ghost before = self@;
        let ghost link_texts = links.deep_view();
        let ghost body_model = body.deep_view();
        proof {
            lemma_after_ingest(
                before,
                id as int,
                url@,
                lease as int,
                link_texts,
                body_model,
                now as int,
            );
        }
        match self.check_ingest(id, url, lease, links, &body, now) {
            Err(e) => {
                return Err(e);
            },
            Ok(()) => {},
        }
        let done = self.frontier.complete(id, url, lease, now);
        assert(done is Ok);
        let ghost completed_rows = self.frontier@;
        proof {
            lemma_after_complete(before.jobs, id as int, url@, lease as int, now as int);
        }
        let mut i: usize = 0;
        assert(link_texts.take(0) =~= Seq::<Seq<char>>::empty());
        while i < links.len()
            invariant
                i <= links@.len(),
                link_texts == links.deep_view(),
                self.frontier.wf(),
                self.frontier@ == enqueue_all(completed_rows, link_texts.take(i as int), now as int),
                self.documents == old(self).documents,
                self.images == old(self).images,
                self.history == old(self).history,
                self.ids_follow(),
            decreases links@.len() - i,
        {
            assert(link_texts.take(i + 1).drop_last() =~= link_texts.take(i as int));
            assert(link_texts.take(i + 1).last() == links@[i as int]@);
            self.frontier.enqueue_if_absent(links[i].as_str(), now);
            i += 1;
        }
        assert(link_texts.take(i as int) =~= link_texts);
        match body {
            Some(Body::Html(html)) => {
                let ghost html_model = html.deep_view();
                let document_id = (self.documents.len() + 1) as i32;
                let document = new_document(document_id, url, &html, now);
                self.documents.push(document);
                assert(self.documents.deep_view() =~= before.documents.push(
                    document_row(url@, html_model, now as int),
                ));
                let ghost frontier_after = self.frontier;
                let ghost documents_after = self.documents;
                let mut k: usize = 0;
                while k < html.images.len()
                    invariant
                        k <= html.images@.len(),
                        html_model == html.deep_view(),
                        before.images == old(self).images.deep_view(),
                        before.images.len() + html.images@.len() <= MAX_ROWS,
                        self.images@.len() == before.images.len() + k,
                        forall|n: int|
                            0 <= n < self.images@.len() ==> (#[trigger] self.images@[n]).id == n
                                + 1,
                        self.images.deep_view() == before.images + image_rows(
                            html_model.images,
                            document_id as int,
                            now as int,
                        ).take(k as int),
                        self.frontier == frontier_after,
                        self.documents == documents_after,
                        self.history == old(self).history,
                    decreases html.images@.len() - k,
                {
                    let ghost rows_before = self.images.deep_view();
                    let row = new_image_row(
                        (self.images.len() + 1) as i32,
                        &html.images[k],
                        document_id,
                        now,
                    );
                    self.images.push(row);
                    assert(self.images.deep_view() =~= rows_before.push(
                        image_row(html_model.images[k as int], document_id as int, now as int),
                    ));
                    assert(image_rows(html_model.images, document_id as int, now as int).take(
                        k + 1,
                    ) =~= image_rows(html_model.images, document_id as int, now as int).take(
                        k as int,
                    ).push(image_row(html_model.images[k as int], document_id as int, now as int)));
                    k += 1;
                }
                assert(image_rows(html_model.images, document_id as int, now as int).take(
                    k as int,
                ) =~= image_rows(html_model.images, document_id as int, now as int));
                Ok(Some(document_id))
            },
            _ => Ok(None),
        }
    }

    /// Records a search for `text` at `now`. An empty text is not recorded.
    pub fn record_search(&mut self, text: &str, now: Timestamp)
        requires
            old(self).wf(),
        ensures
            final(self).wf(),
            final(self)@ == (DbModel {
                history: after_search(old(self)@.history, text@, now as int),
                ..old(self)@
            }),
    {
        let ghost before = self@;
        proof {
            lemma_after_search(before, text@, now as int);
        }
        if text.unicode_len() == 0 {
            return ;
        }
        let at = self.history_index(text);
        if at < self.history.len() {
            let entry = &mut self.history[at];
            if entry.count < 0x7fff_ffff {
                entry.count = entry.count + 1;
            }
            entry.last_updated_at = now;
            assert(self.history.deep_view() =~= before.history.update(
                at as int,
                bumped(before.history[at as int], now as int),
            ));
        } else if self.history.len() < MAX_ROWS {
            let entry = SearchEntry {
                id: (self.history.len() + 1) as i32,
                text: text.to_owned(),
                count: 1,
                last_updated_at: now,
                created_at: now,
            };
            self.history.push(entry);
            assert(self.history.deep_view() =~= before.history.push(
                SearchEntryModel {
                    text: text@,
                    count: 1,
                    last_updated_at: now as int,
                    created_at: now as int,
                },
            ));
        }
    }

    /// The position of the entry with this text, or the number of entries.
    fn history_index(&self, text: &str) -> (at: usize)
        ensures
            at == history_position(self@.history, text@, 0),
            at <= self.history@.len(),
    {
        let wanted = text.to_owned();
        let mut i: usize = 0;
        while i < self.history.len()
            invariant
                i <= self.history@.len(),
                wanted@ == text@,
                history_position(self@.history, text@, 0) == history_position(
                    self@.history,
                    text@,
                    i as int,
                ),
            decreases self.history@.len() - i,
        {
            if self.history[i].text == wanted {
                return i;
            }
            i += 1;
        }
        i
    }

    /// The searches recorded so far that begin with `prefix`, in the order
    /// in which they were first made.
    pub fn complete_search(&self, prefix: &str) -> (texts: Vec<String>)
        ensures
            texts.deep_view() == completions(self@.history, prefix@),
    {
        let ghost history = self@.history;
        let mut texts: Vec<String> = Vec::new();
        let mut i: usize = 0;
        assert(history.take(0) =~= Seq::<SearchEntryModel>::empty());
        assert(texts.deep_view() =~= completions(history.take(0), prefix@));
        while i < self.history.len()
            invariant
                i <= self.history@.len(),
                history == self.history.deep_view(),
                texts.deep_view() == completions(history.take(i as int), prefix@),
            decreases self.history@.len() - i,
        {
            let ghost found = texts.deep_view();
            assert(history.take(i + 1).drop_last() =~= history.take(i as int));
            if starts_with(self.history[i].text.as_str(), prefix) {
                texts.push(self.history[i].text.clone());
                assert(texts.deep_view() =~= found.push(history[i as int].text));
            }
            i += 1;
        }
        assert(history.take(i as int) =~= history);
        texts
    }
}

/// Builds the document that is stored for the page at `url`.
pub fn new_document(id: i32, url: &str, html: &HtmlBody, now: Timestamp) -> (doc: Document)
    ensures
        doc.id == id,
        doc.deep_view() == document_row(url@, html.deep_view(), now as int),
{
    let (site_name, site_short_name, site_description, site_categories) = match &html.manifest {
        Some(manifest) => (
            copy_text(&manifest.name),
            copy_text(&manifest.short_name),
            copy_text(&manifest.description),
            copy_texts(&manifest.categories),
        ),
        None => (None, None, None, Vec::new()),
    };
    assert(site_categories.deep_view() =~= site_categories_of(html.deep_view()));
    Document {
        id,
        url: url.to_owned(),
        title: copy_text(&html.title),
        description: copy_text(&html.description),
        icon_url: copy_text(&html.icon_url),
        text_fields: copy_texts(&html.text_fields),
        sections: copy_texts(&html.sections),
        keywords: copy_texts(&html.keywords),
        site_name,
        site_short_name,
        site_description,
        site_categories,
        created_at: now,
    }
}

/// Builds the row that is stored for an image of document `source`.
pub fn new_image_row(id: i32, entry: &ImageEntry, source: i32, now: Timestamp) -> (row: ImageRow)
    ensures
        row.id == id,
        row.deep_view() == image_row(entry.deep_view(), source as int, now as int),
{
    let (width, height) = match entry.size {
        Some(size) => (Some(size.width), Some(size.height)),
        None => (None, None),
    };
    ImageRow {
        id,
        url: entry.image_url.clone(),
        source,
        width,
        height,
        alt_text: copy_text(&entry.alt_text),
        created_at: now,
    }
}

} // verus!
