//! The search endpoints: what is sent to the search index, and how what
//! the index finds is joined with the store.

use crate::frontier::Timestamp;
use crate::payload::ServiceError;
use crate::store::{
    after_search, completions, Database, DbModel, Document, DocumentModel, ImageRow, ImageRowModel,
};
use crate::text::{copy_text, copy_texts};
use vstd::prelude::*;

verus! {

/// A page as the search index holds it.
#[derive(Debug)]
pub struct WebsiteSearch {
    pub id: i64,
    pub url: String,
    pub title: Option<String>,
    pub description: Option<String>,
    pub text_fields: Vec<String>,
    pub sections: Vec<String>,
}

pub struct WebsiteSearchModel {
    pub id: i64,
    pub url: Seq<char>,
    pub title: Option<Seq<char>>,
    pub description: Option<Seq<char>>,
    pub text_fields: Seq<Seq<char>>,
    pub sections: Seq<Seq<char>>,
}

impl DeepView for WebsiteSearch {
    type V = WebsiteSearchModel;

    open spec fn deep_view(&self) -> WebsiteSearchModel {
        WebsiteSearchModel {
            id: self.id,
            url: self.url@,
            title: self.title.deep_view(),
            description: self.description.deep_view(),
            text_fields: self.text_fields.deep_view(),
            sections: self.sections.deep_view(),
        }
    }
}

/// What a user searches for.
#[derive(Debug)]
pub struct SearchQuery {
    pub query: String,
    pub page: u32,
}

/// A search to run on the index.
#[derive(Debug)]
pub struct IndexRequest {
    pub index: String,
    pub query: String,
    pub page: usize,
}

/// A page that was found.
#[derive(Debug)]
pub struct SearchWebResult {
    pub url: String,
    pub title: Option<String>,
    pub description: Option<String>,
    pub icon_url: Option<String>,
    pub inner_text_match: Option<String>,
    pub site_name: Option<String>,
    pub site_description: Option<String>,
}

pub struct SearchWebResultModel {
    pub url: Seq<char>,
    pub title: Option<Seq<char>>,
    pub description: Option<Seq<char>>,
    pub icon_url: Option<Seq<char>>,
    pub inner_text_match: Option<Seq<char>>,
    pub site_name: Option<Seq<char>>,
    pub site_description: Option<Seq<char>>,
}

impl DeepView for SearchWebResult {
    type V = SearchWebResultModel;

    open spec fn deep_view(&self) -> SearchWebResultModel {
        SearchWebResultModel {
            url: self.url@,
            title: self.title.deep_view(),
            description: self.description.deep_view(),
            icon_url: self.icon_url.deep_view(),
            inner_text_match: self.inner_text_match.deep_view(),
            site_name: self.site_name.deep_view(),
            site_description: self.site_description.deep_view(),
        }
    }
}

/// The size of an image that was found, in pixels.
#[derive(Clone, Copy, PartialEq, Eq, Debug, Structural)]
pub struct FoundSize {
    pub width: u32,
    pub height: u32,
}

/// An image that was found, with the page that shows it.
#[derive(Debug)]
pub struct SearchImageResult {
    pub url: String,
    pub alt_text: Option<String>,
    pub size: Option<FoundSize>,
    pub source: Option<SearchWebResult>,
}

pub struct SearchImageResultModel {
    pub url: Seq<char>,
    pub alt_text: Option<Seq<char>>,
    pub size: Option<FoundSize>,
    pub source: Option<SearchWebResultModel>,
}

impl DeepView for SearchImageResult {
    type V = SearchImageResultModel;

    open spec fn deep_view(&self) -> SearchImageResultModel {
        SearchImageResultModel {
            url: self.url@,
            alt_text: self.alt_text.deep_view(),
            size: self.size,
            source: self.source.deep_view(),
        }
    }
}

/// The entry of the index for a document.
pub open spec fn index_entry_of(id: int, doc: DocumentModel) -> WebsiteSearchModel {
    WebsiteSearchModel {
        id: id as i64,
        url: doc.url,
        title: doc.title,
        description: doc.description,
        text_fields: doc.text_fields,
        sections: doc.sections,
    }
}

/// What is shown of a document that was found.
pub open spec fn web_result_of(doc: DocumentModel) -> SearchWebResultModel {
    SearchWebResultModel {
        url: doc.url,
        title: doc.title,
        description: doc.description,
        icon_url: doc.icon_url,
        inner_text_match: None,
        site_name: doc.site_name,
        site_description: doc.site_description,
    }
}

/// The size of an image of which both width and height are known.
pub open spec fn found_size_of(width: Option<i32>, height: Option<i32>) -> Option<FoundSize> {
    match (width, height) {
        (Some(w), Some(h)) => Some(FoundSize { width: w as u32, height: h as u32 }),
        _ => None,
    }
}

/// What is shown of an image that was found.
pub open spec fn image_result_of(row: ImageRowModel, doc: DocumentModel) -> SearchImageResultModel {
    SearchImageResultModel {
        url: row.url,
        alt_text: row.alt_text,
        size: found_size_of(row.width, row.height),
        source: Some(web_result_of(doc)),
    }
}

/// The row that a hit of the index names: its id, cut down to 32 bits.
pub open spec fn hit_row(hit: i64) -> int {
    (hit as i32) as int
}

/// Every hit names a row out of `count`.
pub open spec fn hits_known(hits: Seq<i64>, count: nat) -> bool {
    forall|k: int| 0 <= k < hits.len() ==> 1 <= hit_row(#[trigger] hits[k]) <= count
}

/// What is shown for the hits of a search for pages.
pub open spec fn web_results_of(db: DbModel, hits: Seq<i64>) -> Seq<SearchWebResultModel> {
    Seq::new(hits.len(), |k: int| web_result_of(db.documents[hit_row(hits[k]) - 1]))
}

/// What is shown for the hits of a search for images.
pub open spec fn image_results_of(db: DbModel, hits: Seq<i64>) -> Seq<SearchImageResultModel> {
    Seq::new(
        hits.len(),
        |k: int|
            image_result_of(
                db.images[hit_row(hits[k]) - 1],
                db.documents[db.images[hit_row(hits[k]) - 1].source - 1],
            ),
    )
}

/// Builds the entry of the index for a document.
pub fn index_entry(doc: &Document) -> (entry: WebsiteSearch)
    ensures
        entry.deep_view() == index_entry_of(doc.id as int, doc.deep_view()),
{
    WebsiteSearch {
        id: doc.id as i64,
        url: doc.url.clone(),
        title: copy_text(&doc.title),
        description: copy_text(&doc.description),
        text_fields: copy_texts(&doc.text_fields),
        sections: copy_texts(&doc.sections),
    }
}

/// Builds what is shown of a document that was found.
pub fn web_result(doc: &Document) -> (result: SearchWebResult)
    ensures
        result.deep_view() == web_result_of(doc.deep_view()),
{
    SearchWebResult {
        url: doc.url.clone(),
        title: copy_text(&doc.title),
        description: copy_text(&doc.description),
        icon_url: copy_text(&doc.icon_url),
        inner_text_match: None,
        site_name: copy_text(&doc.site_name),
        site_description: copy_text(&doc.site_description),
    }
}

/// Builds what is shown of an image that was found.
pub fn image_result(row: &ImageRow, doc: &Document) -> (result: SearchImageResult)
    ensures
        result.deep_view() == image_result_of(row.deep_view(), doc.deep_view()),
{
    let size = match (row.width, row.height) {
        (Some(w), Some(h)) => Some(
            FoundSize { width: #[verifier::truncate] (w as u32), height: #[verifier::truncate] (h as u32) },
        ),
        _ => None,
    };
    SearchImageResult {
        url: row.url.clone(),
        alt_text: copy_text(&row.alt_text),
        size,
        source: Some(web_result(doc)),
    }
}

/// The search service.
pub struct SearchServise {
    pub db: Database,
}

impl SearchServise {
    pub open spec fn wf(&self) -> bool {
        self.db.wf()
    }

    /// The searches made so far that begin with `current`.
    pub fn complete_search(&self, current: &str) -> (possibilities: Vec<String>)
        ensures
            possibilities.deep_view() == completions(self.db@.history, current@),
    {
        self.db.complete_search(current)
    }

    /// Records the query in the search history and says what to ask of
    /// the index.
    fn begin(&mut self, index: &str, query: Option<SearchQuery>, now: Timestamp) -> (r: Result<
        IndexRequest,
        ServiceError,
    >)
        requires
            old(self).wf(),
        ensures
            final(self).wf(),
            match query {
                None => r == Err::<IndexRequest, ServiceError>(ServiceError::MissingQuery)
                    && final(self).db@ == old(self).db@,
                Some(q) => {
                    &&& r matches Ok(request)
                    &&& request.index@ == index@
                    &&& request.query@ == q.query@
                    &&& request.page == q.page
                    &&& final(self).db@ == (DbModel {
                        history: after_search(old(self).db@.history, q.query@, now as int),
                        ..old(self).db@
                    })
                },
            },
    {
        match query {
            None => Err(ServiceError::MissingQuery),
            Some(q) => {
                self.db.record_search(q.query.as_str(), now);
                Ok(IndexRequest { index: index.to_owned(), query: q.query, page: q.page as usize })
            },
        }
    }

    /// Begins a search for pages: the query is recorded in the search
    /// history, and the answer says what to ask of the index `websites`. A
    /// request without a query is refused.
    pub fn search_web(&mut self, query: Option<SearchQuery>, now: Timestamp) -> (r: Result<
        IndexRequest,
        ServiceError,
    >)
        requires
            old(self).wf(),
        ensures
            final(self).wf(),
            match query {
                None => r == Err::<IndexRequest, ServiceError>(ServiceError::MissingQuery)
                    && final(self).db@ == old(self).db@,
                Some(q) => {
                    &&& r matches Ok(request)
                    &&& request.index@ == "websites"@
                    &&& request.query@ == q.query@
                    &&& request.page == q.page
                    &&& final(self).db@ == (DbModel {
                        history: after_search(old(self).db@.history, q.query@, now as int),
                        ..old(self).db@
                    })
                },
            },
    {
        self.begin("websites", query, now)
    }

    /// Begins a search for images, on the index `image`.
    pub fn search_image(&mut self, query: Option<SearchQuery>, now: Timestamp) -> (r: Result<
        IndexRequest,
        ServiceError,
    >)
        requires
            old(self).wf(),
        ensures
            final(self).wf(),
            match query {
                None => r == Err::<IndexRequest, ServiceError>(ServiceError::MissingQuery)
                    && final(self).db@ == old(self).db@,
                Some(q) => {
                    &&& r matches Ok(request)
                    &&& request.index@ == "image"@
                    &&& request.query@ == q.query@
                    &&& request.page == q.page
                    &&& final(self).db@ == (DbModel {
                        history: after_search(old(self).db@.history, q.query@, now as int),
                        ..old(self).db@
                    })
                },
            },
    {
        self.begin("image", query, now)
    }

    /// Joins the hits of a search for pages with the store. A hit that
    /// names no document shows that index and store have come apart.
    pub fn web_results(&self, hits: &Vec<i64>) -> (r: Result<Vec<SearchWebResult>, ServiceError>)
        requires
            self.wf(),
        ensures
            match r {
                Ok(results) => hits_known(hits@, self.db@.documents.len())
                    && results.deep_view() == web_results_of(self.db@, hits@),
                Err(e) => e == ServiceError::Desync && !hits_known(
                    hits@,
                    self.db@.documents.len(),
                ),
            },
    {
        let mut results: Vec<SearchWebResult> = Vec::new();
        let mut k: usize = 0;
        while k < hits.len()
            invariant
                k <= hits@.len(),
                self.wf(),
                results@.len() == k,
                forall|j: int| 0 <= j < k ==> 1 <= hit_row(#[trigger] hits@[j]) <= self.db@.documents.len(),
                forall|j: int|
                    0 <= j < k ==> (#[trigger] results@[j]).deep_view() == web_result_of(
                        self.db@.documents[hit_row(hits@[j]) - 1],
                    ),
            decreases hits@.len() - k,
        {
            let id = #[verifier::truncate] (hits[k] as i32);
            match self.db.document(id) {
                Some(doc) => {
                    results.push(web_result(doc));
                },
                None => {
                    assert(!(1 <= hit_row(hits@[k as int]) <= self.db@.documents.len()));
                    return Err(ServiceError::Desync);
                },
            }
            k += 1;
        }
        assert(results.deep_view() =~= web_results_of(self.db@, hits@));
        Ok(results)
    }

    /// Joins the hits of a search for images with the store.
    pub fn image_results(&self, hits: &Vec<i64>) -> (r: Result<Vec<SearchImageResult>, ServiceError>)
        requires
            self.wf(),
        ensures
            match r {
                Ok(results) => hits_known(hits@, self.db@.images.len()) && results.deep_view()
                    == image_results_of(self.db@, hits@),
                Err(e) => e == ServiceError::Desync && !hits_known(hits@, self.db@.images.len()),
            },
    {
        let mut results: Vec<SearchImageResult> = Vec::new();
        let mut k: usize = 0;
        while k < hits.len()
            invariant
                k <= hits@.len(),
                self.wf(),
                results@.len() == k,
                forall|j: int| 0 <= j < k ==> 1 <= hit_row(#[trigger] hits@[j]) <= self.db@.images.len(),
                forall|j: int|
                    0 <= j < k ==> (#[trigger] results@[j]).deep_view() == image_result_of(
                        self.db@.images[hit_row(hits@[j]) - 1],
                        self.db@.documents[self.db@.images[hit_row(hits@[j]) - 1].source - 1],
                    ),
            decreases hits@.len() - k,
        {
            let id = #[verifier::truncate] (hits[k] as i32);
            match self.db.image(id) {
                Some(row) => {
                    assert(1 <= self.db@.images[id - 1].source <= self.db@.documents.len());
                    match self.db.document(row.source) {
                        Some(doc) => {
                            results.push(image_result(row, doc));
                        },
                        None => {
                            assert(false);
                        },
                    }
                },
                None => {
                    assert(!(1 <= hit_row(hits@[k as int]) <= self.db@.images.len()));
                    return Err(ServiceError::Desync);
                },
            }
            k += 1;
        }
        assert(results.deep_view() =~= image_results_of(self.db@, hits@));
        Ok(results)
    }
}

} // verus!
