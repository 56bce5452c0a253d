use million::frontier::Status;
use million::payload::{Body, HtmlBody, ImageEntry, ServiceError, Size};
use million::search::{
    image_result, index_entry, web_result, FoundSize, SearchQuery, SearchServise,
};
use million::store::Database;
use million::view::{
    display_site_name, search_url, suggestion_url, SearchSuggestionQuery, SearchType, SizeRange,
    ViewData,
};

fn crawled() -> Database {
    let mut db = Database::new();
    for (n, url) in ["https://a/", "https://b/"].iter().enumerate() {
        db.enqueue(url, 0).unwrap();
        db.claim_next(0).unwrap();
        let body = Body::Html(HtmlBody {
            title: Some(format!("title {}", n + 1)),
            description: if n == 0 { Some("first".to_string()) } else { None },
            icon_url: None,
            text_fields: vec!["text".to_string()],
            sections: vec![],
            keywords: vec![],
            manifest: None,
            images: vec![ImageEntry {
                image_url: format!("{}pic.png", url),
                size: if n == 0 { Some(Size { width: 10, height: -1 }) } else { None },
                alt_text: Some("alt".to_string()),
            }],
        });
        db.ingest(n as i32 + 1, url, 0, &vec![], Some(body), 1).unwrap();
    }
    assert_eq!(db.frontier().get(2).unwrap().status, Status::Complete);
    db
}

#[test]
fn search_records_history() {
    let mut search = SearchServise { db: Database::new() };
    let request = search
        .search_web(Some(SearchQuery { query: "rust".to_string(), page: 2 }), 5)
        .unwrap();
    assert_eq!(request.index, "websites");
    assert_eq!(request.query, "rust");
    assert_eq!(request.page, 2);
    let request = search
        .search_image(Some(SearchQuery { query: "rusty".to_string(), page: 1 }), 6)
        .unwrap();
    assert_eq!(request.index, "image");
    search.search_web(Some(SearchQuery { query: "rust".to_string(), page: 1 }), 7).unwrap();
    search.search_web(Some(SearchQuery { query: "".to_string(), page: 1 }), 8).unwrap();
    search.search_web(Some(SearchQuery { query: "go".to_string(), page: 1 }), 9).unwrap();
    assert_eq!(search.complete_search("ru"), vec!["rust".to_string(), "rusty".to_string()]);
    assert_eq!(search.complete_search("rusty"), vec!["rusty".to_string()]);
    assert_eq!(search.complete_search(""), vec!["rust".to_string(), "rusty".to_string(), "go".to_string()]);
    assert_eq!(search.complete_search("x"), Vec::<String>::new());
}

#[test]
fn search_without_query_is_refused() {
    let mut search = SearchServise { db: Database::new() };
    assert_eq!(search.search_web(None, 1).unwrap_err(), ServiceError::MissingQuery);
    assert_eq!(search.search_image(None, 1).unwrap_err(), ServiceError::MissingQuery);
    assert!(search.complete_search("").is_empty());
}

#[test]
fn record_search_counts() {
    let mut db = Database::new();
    db.record_search("a", 1);
    db.record_search("b", 2);
    db.record_search("a", 3);
    db.record_search("", 4);
    assert_eq!(db.complete_search(""), vec!["a".to_string(), "b".to_string()]);
}

#[test]
fn web_results_join_the_store() {
    let search = SearchServise { db: crawled() };
    let results = search.web_results(&vec![2, 1, 2]).unwrap();
    assert_eq!(results.len(), 3);
    assert_eq!(results[0].url, "https://b/");
    assert_eq!(results[0].title, Some("title 2".to_string()));
    assert_eq!(results[1].url, "https://a/");
    assert_eq!(results[1].description, Some("first".to_string()));
    assert_eq!(results[1].inner_text_match, None);
    assert!(search.web_results(&vec![]).unwrap().is_empty());
}

#[test]
fn desync_is_reported() {
    let search = SearchServise { db: crawled() };
    assert_eq!(search.web_results(&vec![1, 3]).unwrap_err(), ServiceError::Desync);
    assert_eq!(search.web_results(&vec![0]).unwrap_err(), ServiceError::Desync);
    assert_eq!(search.web_results(&vec![-1]).unwrap_err(), ServiceError::Desync);
    assert_eq!(search.image_results(&vec![3]).unwrap_err(), ServiceError::Desync);
    // the id is cut down to 32 bits before the row is looked up
    assert_eq!(search.web_results(&vec![(1i64 << 32) + 1]).unwrap()[0].url, "https://a/");
}

#[test]
fn image_results_carry_their_page() {
    let search = SearchServise { db: crawled() };
    let results = search.image_results(&vec![1, 2]).unwrap();
    assert_eq!(results[0].url, "https://a/pic.png");
    assert_eq!(results[0].alt_text, Some("alt".to_string()));
    assert_eq!(results[0].size, Some(FoundSize { width: 10, height: u32::MAX }));
    assert_eq!(results[0].source.as_ref().unwrap().url, "https://a/");
    assert_eq!(results[1].size, None);
    assert_eq!(results[1].source.as_ref().unwrap().title, Some("title 2".to_string()));
}

#[test]
fn builders_for_results() {
    let db = crawled();
    let doc = db.document(1).unwrap();
    let entry = index_entry(doc);
    assert_eq!(entry.id, 1);
    assert_eq!(entry.url, "https://a/");
    assert_eq!(entry.title, Some("title 1".to_string()));
    assert_eq!(entry.description, Some("first".to_string()));
    assert_eq!(entry.text_fields, vec!["text".to_string()]);
    assert!(entry.sections.is_empty());
    let shown = web_result(doc);
    assert_eq!(display_site_name(&shown), "title 1");
    let image = image_result(db.image(2).unwrap(), db.document(2).unwrap());
    assert_eq!(image.url, "https://b/pic.png");
}

#[test]
fn site_name_falls_back() {
    let db = crawled();
    let mut shown = web_result(db.document(1).unwrap());
    shown.site_name = Some("Site".to_string());
    assert_eq!(display_site_name(&shown), "Site");
    shown.site_name = None;
    assert_eq!(display_site_name(&shown), "title 1");
    shown.title = None;
    assert_eq!(display_site_name(&shown), "https://a/");
}

#[test]
fn search_urls() {
    assert_eq!(search_url(SearchType::Html), "/search");
    assert_eq!(search_url(SearchType::Image), "/image/search");
    assert_eq!(suggestion_url("/image/search"), "/image/search");
    assert_eq!(suggestion_url("/image"), "/image/search");
    assert_eq!(suggestion_url("/search"), "/search");
    assert_eq!(suggestion_url("/"), "/search");
    assert_eq!(suggestion_url(""), "/search");
    assert_eq!(suggestion_url("image"), "/search");
    assert_eq!(suggestion_url("/images"), "/search");
}

#[test]
fn view_places() {
    assert_eq!(ViewData::new(1, 0).place(3), Some(0));
    assert_eq!(ViewData::new(1, 2).place(3), Some(2));
    assert_eq!(ViewData::new(1, 3).place(3), None);
    assert_eq!(ViewData::new(1, 0).place(0), None);
    assert_eq!(ViewData::new(1, -1).place(3), Some(1));
    assert_eq!(ViewData::new(1, -2).place(3), Some(0));
    assert_eq!(ViewData::new(1, -3).place(3), None);
    assert_eq!(ViewData::new(1, i32::MIN).place(3), None);
    assert_eq!(ViewData::new(1, i32::MAX).place(3), None);
}

#[test]
fn view_steps() {
    let view = ViewData::new(4, 1);
    assert_eq!(view.next(1, 3), Some(ViewData { page: 4, item: 2 }));
    assert_eq!(view.next(2, 3), Some(ViewData { page: 5, item: 0 }));
    assert_eq!(ViewData::new(u32::MAX, 0).next(2, 3), None);
    assert_eq!(view.previous(2), Some(ViewData { page: 4, item: 1 }));
    assert_eq!(view.previous(0), Some(ViewData { page: 3, item: -1 }));
    assert_eq!(ViewData::new(0, 0).previous(0), None);
}

#[test]
fn plain_view_types() {
    let range = SizeRange { min_width: 1, min_height: 2, max_width: 3, max_height: 4 };
    assert_eq!(range.clone(), range);
    let query = SearchSuggestionQuery::new("abc".to_string());
    assert_eq!(query.query(), "abc");
}
