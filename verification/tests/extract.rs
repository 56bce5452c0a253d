use million::extract::{
    classify, extract_page, html_payload, image_entry, measure_image, plain_payload,
    size_of_dimensions, ContentKind,
};
use million::links::{archive_urls, read_listing, read_listings, refresh_target, srcset_urls, Listing};
use million::page::{Page, Pattern};
use million::payload::{Body, Manifest, Size};
use million::selector_set::SelectorSet;
use million::weburl::{url_texts, WebUrl};

fn page_url() -> WebUrl {
    WebUrl::parse("https://example.com/dir/index.html").unwrap()
}

fn owned(v: &[&str]) -> Vec<String> {
    v.iter().map(|s| s.to_string()).collect()
}

#[test]
fn classify_first_match_wins() {
    assert_eq!(classify(""), ContentKind::Html);
    assert_eq!(classify("text/html"), ContentKind::Html);
    assert_eq!(classify("text/html; charset=utf-8"), ContentKind::Html);
    assert_eq!(classify("application/xhtml+xml"), ContentKind::Html);
    assert_eq!(classify("image/html"), ContentKind::Html);
    assert_eq!(classify("image/png"), ContentKind::Image);
    assert_eq!(classify("video/mp4"), ContentKind::Video);
    assert_eq!(classify("audio/ogg"), ContentKind::Audio);
    assert_eq!(classify("application/manifest+json"), ContentKind::Manifest);
    assert_eq!(classify("application/manifest+json; charset=utf-8"), ContentKind::Opaque);
    assert_eq!(classify("application/json"), ContentKind::Opaque);
    assert_eq!(classify("ximage/png"), ContentKind::Opaque);
    assert_eq!(classify("text/HTML"), ContentKind::Opaque);
}

#[test]
fn selector_set_compiles() {
    assert!(SelectorSet::new().is_some());
}

#[test]
fn pattern_rejects_what_is_no_selector() {
    assert!(Pattern::new("[href]").is_some());
    assert!(Pattern::new("h1, h2").is_some());
    assert!(Pattern::new("a >").is_none());
    assert!(Pattern::new("!").is_none());
    assert!(Pattern::new("").is_none());
}

#[test]
fn page_queries() {
    let page = Page::new(
        r#"<html><body><p>one <b>bold</b></p><a href="/x">x</a><a>none</a><a href="y">y</a><p>two</p></body></html>"#,
    );
    let anchors = Pattern::new("a").unwrap();
    let paragraphs = Pattern::new("p").unwrap();
    let missing = Pattern::new("table").unwrap();
    assert_eq!(page.attrs(&anchors, "href"), owned(&["/x", "y"]));
    assert_eq!(page.first_attr(&anchors, "href"), Some("/x".to_string()));
    assert_eq!(page.first_attr(&anchors, "title"), None);
    assert_eq!(page.first_attr(&missing, "href"), None);
    assert_eq!(page.texts(&paragraphs), owned(&["one bold", "two"]));
    assert_eq!(page.first_text(&paragraphs), Some("one bold".to_string()));
    assert_eq!(page.first_text(&missing), None);
    assert_eq!(page.texts(&missing), owned(&[]));
}

#[test]
fn page_first_attr_looks_at_first_match_only() {
    let page = Page::new(r#"<a>no href</a><a href="/second">s</a>"#);
    let anchors = Pattern::new("a").unwrap();
    assert_eq!(page.first_attr(&anchors, "href"), None);
    assert_eq!(page.attrs(&anchors, "href"), owned(&["/second"]));
}

#[test]
fn page_attr_pairs() {
    let page = Page::new(r#"<img src="a.png" alt="A"><img alt="no src"><img src="b.png">"#);
    let images = Pattern::new("img").unwrap();
    assert_eq!(
        page.attr_pairs(&images, "src", "alt"),
        vec![("a.png".to_string(), Some("A".to_string())), ("b.png".to_string(), None)]
    );
}

#[test]
fn srcset_takes_second_space_separated_piece() {
    assert_eq!(srcset_urls("a.png 1x, b.png 2x"), owned(&["1x", "b.png"]));
    assert_eq!(srcset_urls("a.png"), owned(&[]));
    assert_eq!(srcset_urls(""), owned(&[]));
    assert_eq!(srcset_urls("a.png  2x"), owned(&[""]));
    assert_eq!(srcset_urls(" x.png 1x,y.png"), owned(&["x.png"]));
}

#[test]
fn archive_splits_on_whitespace_and_commas() {
    assert_eq!(archive_urls("a.jar b.jar,c.jar"), owned(&["a.jar", "b.jar", "c.jar"]));
    assert_eq!(archive_urls("  a.jar \t b.jar  "), owned(&["a.jar", "b.jar"]));
    assert_eq!(archive_urls("a.jar, b.jar"), owned(&["a.jar", "", "b.jar"]));
    assert_eq!(archive_urls(""), owned(&[]));
}

#[test]
fn refresh_without_second_segment_has_no_target() {
    assert_eq!(refresh_target("5"), None);
    assert_eq!(refresh_target(""), None);
    assert_eq!(refresh_target("0 URL=/x"), None);
    assert_eq!(read_listing(Listing::Refresh, "5"), owned(&[]));
}

#[test]
fn refresh_target_is_second_segment() {
    assert_eq!(refresh_target("5;URL=/next"), Some("/next".to_string()));
    assert_eq!(refresh_target("5;/next"), Some("/next".to_string()));
    assert_eq!(refresh_target("5; URL=/next"), Some(" URL=/next".to_string()));
    assert_eq!(refresh_target("5;"), Some(String::new()));
    assert_eq!(refresh_target("5;a;b"), Some("a".to_string()));
    assert_eq!(refresh_target("0;url=/x"), Some("url=/x".to_string()));
}

#[test]
fn listings_concatenate_in_order() {
    assert_eq!(
        read_listings(Listing::Srcset, &owned(&["a 1x", "b", "c 2x,d 3x"])),
        owned(&["1x", "2x", "3x"])
    );
    assert_eq!(
        read_listings(Listing::Archive, &owned(&["a b", "c,d"])),
        owned(&["a", "b", "c", "d"])
    );
    assert_eq!(read_listings(Listing::Refresh, &owned(&["1", "2;/x", "3;URL=/y"])), owned(&["/x", "/y"]));
    assert_eq!(read_listing(Listing::Srcset, "a 1x"), owned(&["1x"]));
    assert_eq!(read_listing(Listing::Archive, "a,b"), owned(&["a", "b"]));
}

const PAGE: &str = r##"<!DOCTYPE html>
<html manifest="/app.cache">
<head>
  <title>Example Domain</title>
  <title>Second</title>
  <meta name="description" content="An example page">
  <meta name="keywords" content="alpha, beta ,gamma">
  <meta http-equiv="refresh" content="5;URL=/refreshed">
  <meta http-equiv="refresh" content="9">
  <link rel="icon" href="/favicon.ico#x">
  <link rel="manifest" href="site.webmanifest">
  <link rel="stylesheet" href="style.css">
</head>
<body background="bg.png">
  <h1>Heading <i>one</i></h1>
  <p>First paragraph.</p>
  <h3>Sub</h3>
  <p>Second <a href="/about#team">about</a></p>
  <img src="/img/a.png" alt="Picture A">
  <img src="b.png">
  <img src="https://">
  <img srcset="/small.png 1x, /large.png 2x" src="c.png">
  <form action="/submit"><button formaction="/other">go</button></form>
  <blockquote cite="https://quotes.example/1">q</blockquote>
  <object data="movie.swf" classid="clsid:1" codebase="/code/" archive="a.jar b.jar,c.jar" usemap="#map"></object>
  <video poster="/poster.png" src="/v.mp4"></video>
  <a href="mailto:someone@example.com">mail</a>
  <a href="https://">bad</a>
</body>
</html>"##;

#[test]
fn extract_reads_the_page() {
    let selectors = SelectorSet::new().unwrap();
    let extract = extract_page(&selectors, PAGE, &page_url());
    assert_eq!(extract.title, Some("Example Domain".to_string()));
    assert_eq!(extract.description, Some("An example page".to_string()));
    assert_eq!(extract.icon_url.unwrap().as_str(), "https://example.com/favicon.ico");
    assert_eq!(extract.text_fields, owned(&["First paragraph.", "Second about"]));
    assert_eq!(extract.sections, owned(&["Heading one", "Sub"]));
    assert_eq!(extract.keywords, owned(&["alpha", "beta", "gamma"]));
    assert_eq!(
        extract.manifest_url.unwrap().as_str(),
        "https://example.com/dir/site.webmanifest"
    );
    let images: Vec<(String, Option<String>)> =
        extract.images.into_iter().map(|(url, alt)| (url.into_string(), alt)).collect();
    assert_eq!(
        images,
        vec![
            ("https://example.com/img/a.png".to_string(), Some("Picture A".to_string())),
            ("https://example.com/dir/b.png".to_string(), None),
            ("https://example.com/dir/c.png".to_string(), None),
        ]
    );
}

#[test]
fn extract_links_attribute_by_attribute() {
    let selectors = SelectorSet::new().unwrap();
    let doc = Page::new(PAGE);
    let links = url_texts(selectors.select_urls(&doc, &page_url()));
    assert_eq!(
        links,
        owned(&[
            // href
            "https://example.com/favicon.ico",
            "https://example.com/dir/site.webmanifest",
            "https://example.com/dir/style.css",
            "https://example.com/about",
            "mailto:someone@example.com",
            // codebase
            "https://example.com/code/",
            // cite
            "https://quotes.example/1",
            // background
            "https://example.com/dir/bg.png",
            // action
            "https://example.com/submit",
            // src
            "https://example.com/img/a.png",
            "https://example.com/dir/b.png",
            "https://example.com/dir/c.png",
            "https://example.com/v.mp4",
            // usemap
            "https://example.com/dir/index.html",
            // classid
            "clsid:1",
            // data
            "https://example.com/dir/movie.swf",
            // formaction
            "https://example.com/other",
            // manifest
            "https://example.com/app.cache",
            // poster
            "https://example.com/poster.png",
            // srcset: the second space separated piece of each item
            "https://example.com/dir/1x",
            "https://example.com/large.png",
            // archive
            "https://example.com/dir/a.jar",
            "https://example.com/dir/b.jar",
            "https://example.com/dir/c.jar",
            // refresh
            "https://example.com/refreshed",
        ])
    );
}

#[test]
fn extract_from_empty_page() {
    let selectors = SelectorSet::new().unwrap();
    let extract = extract_page(&selectors, "", &page_url());
    assert_eq!(extract.title, None);
    assert_eq!(extract.description, None);
    assert!(extract.icon_url.is_none());
    assert!(extract.manifest_url.is_none());
    assert!(extract.text_fields.is_empty());
    assert!(extract.sections.is_empty());
    assert!(extract.keywords.is_empty());
    assert!(extract.images.is_empty());
    assert!(extract.linked_urls.is_empty());
}

#[test]
fn extract_against_a_base_that_resolves_nothing() {
    let selectors = SelectorSet::new().unwrap();
    let base = WebUrl::parse("mailto:someone@example.com").unwrap();
    let extract = extract_page(&selectors, PAGE, &base);
    assert_eq!(extract.title, Some("Example Domain".to_string()));
    assert!(extract.icon_url.is_none());
    assert!(extract.manifest_url.is_none());
    assert!(extract.images.is_empty());
    assert_eq!(
        url_texts(extract.linked_urls),
        owned(&[
            "mailto:someone@example.com",
            "https://quotes.example/1",
            // `usemap` holds a fragment only, which resolves to the base itself
            "mailto:someone@example.com",
            "clsid:1",
        ])
    );
}

#[test]
fn selectors_one_by_one() {
    let selectors = SelectorSet::new().unwrap();
    let doc = Page::new(PAGE);
    let base = &page_url();
    assert_eq!(selectors.select_title(&doc), Some("Example Domain".to_string()));
    assert_eq!(selectors.select_description(&doc), Some("An example page".to_string()));
    assert_eq!(
        selectors.select_icon_url(&doc, base).unwrap().as_str(),
        "https://example.com/favicon.ico"
    );
    assert_eq!(
        selectors.select_manifest_url(&doc, base).unwrap().as_str(),
        "https://example.com/dir/site.webmanifest"
    );
    assert_eq!(selectors.select_text_fields(&doc).len(), 2);
    assert_eq!(selectors.select_sections(&doc).len(), 2);
    assert_eq!(selectors.select_keywords(&doc), owned(&["alpha", "beta", "gamma"]));
    assert_eq!(selectors.select_images(&doc, base).len(), 3);
}

#[test]
fn sizes_are_cut_to_signed_32_bits() {
    assert_eq!(size_of_dimensions(None), None);
    assert_eq!(size_of_dimensions(Some((640, 480))), Some(Size { width: 640, height: 480 }));
    assert_eq!(
        size_of_dimensions(Some((u32::MAX, 0x8000_0000))),
        Some(Size { width: -1, height: i32::MIN })
    );
}

#[test]
fn measure_image_decodes_png() {
    let mut bytes: Vec<u8> = Vec::new();
    image::RgbaImage::new(3, 2)
        .write_to(&mut std::io::Cursor::new(&mut bytes), image::ImageFormat::Png)
        .unwrap();
    assert_eq!(measure_image(&bytes), Some(Size { width: 3, height: 2 }));
    assert_eq!(measure_image(b"not an image"), None);
    assert_eq!(measure_image(&[]), None);
    assert_eq!(measure_image(&bytes[..bytes.len() / 2]), None);
}

#[test]
fn html_payload_carries_the_extract() {
    let selectors = SelectorSet::new().unwrap();
    let extract = extract_page(&selectors, PAGE, &page_url());
    let manifest = Manifest {
        name: Some("Site".to_string()),
        short_name: None,
        description: Some("About".to_string()),
        categories: owned(&["news"]),
    };
    let images = vec![
        image_entry(
            "https://example.com/img/a.png".to_string(),
            Some("Picture A".to_string()),
            Some(Size { width: 3, height: 2 }),
        ),
        image_entry("https://example.com/dir/b.png".to_string(), None, None),
    ];
    let links: Vec<String> =
        extract.linked_urls.iter().map(|url| url.as_str().to_string()).collect();
    let payload = html_payload(200, "text/html".to_string(), extract, Some(manifest), images);
    assert_eq!(payload.status, 200);
    assert_eq!(payload.mime_type, "text/html");
    assert_eq!(payload.linked_urls, links);
    match payload.body {
        Some(Body::Html(html)) => {
            assert_eq!(html.title, Some("Example Domain".to_string()));
            assert_eq!(html.description, Some("An example page".to_string()));
            assert_eq!(html.icon_url, Some("https://example.com/favicon.ico".to_string()));
            assert_eq!(html.keywords, owned(&["alpha", "beta", "gamma"]));
            assert_eq!(html.text_fields.len(), 2);
            assert_eq!(html.sections.len(), 2);
            assert_eq!(html.manifest.unwrap().name, Some("Site".to_string()));
            assert_eq!(html.images.len(), 2);
            assert_eq!(html.images[0].size, Some(Size { width: 3, height: 2 }));
            assert_eq!(html.images[0].alt_text, Some("Picture A".to_string()));
            assert_eq!(html.images[1].size, None);
        }
        other => panic!("unexpected body {:?}", other),
    }
}

#[test]
fn plain_payload_by_kind() {
    let p = plain_payload(200, "image/png".to_string(), ContentKind::Image, None);
    assert!(matches!(p.body, Some(Body::Image { size: None })));
    assert!(p.linked_urls.is_empty());
    assert_eq!(p.status, 200);
    assert_eq!(p.mime_type, "image/png");
    let p = plain_payload(206, "video/mp4".to_string(), ContentKind::Video, None);
    assert!(matches!(p.body, Some(Body::Video { size: None, length: None })));
    assert_eq!(p.status, 206);
    let p = plain_payload(200, "audio/ogg".to_string(), ContentKind::Audio, None);
    assert!(matches!(p.body, Some(Body::Audio { length: None })));
    let p = plain_payload(200, "application/pdf".to_string(), ContentKind::Opaque, None);
    assert!(p.body.is_none());
    let manifest = Manifest {
        name: Some("n".to_string()),
        short_name: Some("s".to_string()),
        description: None,
        categories: vec![],
    };
    let p = plain_payload(
        200,
        "application/manifest+json".to_string(),
        ContentKind::Manifest,
        Some(manifest),
    );
    match p.body {
        Some(Body::Manifest(m)) => assert_eq!(m.short_name, Some("s".to_string())),
        other => panic!("unexpected body {:?}", other),
    }
    let p = plain_payload(200, "application/manifest+json".to_string(), ContentKind::Manifest, None);
    assert!(p.body.is_none());
    let p = plain_payload(u16::MAX, String::new(), ContentKind::Opaque, None);
    assert_eq!(p.status, 65535);
}
