//! From a fetched response to the result that the worker hands back: what
//! kind of content it is, what an HTML page holds, and how the result is put
//! together.

use crate::page::{first_attr_of, first_text_of, pairs_of, texts_of, Page};
use crate::payload::{
    Body, BodyModel, HtmlBody, HtmlBodyModel, ImageEntry, ImageEntryModel, Manifest, OkPayload,
    Size,
};
use crate::selector_set::{
    description_pattern, icon_pattern, images_pattern, manifest_pattern, page_keywords,
    page_links, resolved_first, resolved_pairs, sections_pattern, text_pattern, title_pattern,
    SelectorSet,
};
use crate::text::{begins_with, contains, occurs_in, same_text, starts_with};
use crate::weburl::{url_texts, WebUrl};
use image::ImageReader;
use std::io::Cursor;
use vstd::prelude::*;

verus! {

/// What a response holds, by its `Content-Type`.
#[derive(Clone, Copy, PartialEq, Eq, Debug, Structural)]
pub enum ContentKind {
    Html,
    Image,
    Video,
    Audio,
    Manifest,
    Opaque,
}

/// The kind of content that a `Content-Type` announces; the first rule that
/// applies decides. An empty `Content-Type` is taken for HTML.
pub open spec fn kind_of(mime_type: Seq<char>) -> ContentKind {
    if mime_type.len() == 0 || occurs_in(mime_type, "html"@) {
        ContentKind::Html
    } else if begins_with(mime_type, "image/"@) {
        ContentKind::Image
    } else if begins_with(mime_type, "video/"@) {
        ContentKind::Video
    } else if begins_with(mime_type, "audio/"@) {
        ContentKind::Audio
    } else if mime_type == "application/manifest+json"@ {
        ContentKind::Manifest
    } else {
        ContentKind::Opaque
    }
}

/// Tells the kind of content from the `Content-Type`.
pub fn classify(mime_type: &str) -> (kind: ContentKind)
    ensures
        kind == kind_of(mime_type@),
{
    if mime_type.unicode_len() == 0 || contains(mime_type, "html") {
        ContentKind::Html
    } else if starts_with(mime_type, "image/") {
        ContentKind::Image
    } else if starts_with(mime_type, "video/") {
        ContentKind::Video
    } else if starts_with(mime_type, "audio/") {
        ContentKind::Audio
    } else if same_text(mime_type, "application/manifest+json") {
        ContentKind::Manifest
    } else {
        ContentKind::Opaque
    }
}

/// What was read from an HTML page, before its manifest and its images
/// were fetched.
#[derive(Debug)]
pub struct PageExtract {
    pub title: Option<String>,
    pub description: Option<String>,
    pub icon_url: Option<WebUrl>,
    pub text_fields: Vec<String>,
    pub sections: Vec<String>,
    pub keywords: Vec<String>,
    /// Where the page's manifest is to be fetched from.
    pub manifest_url: Option<WebUrl>,
    /// The images to fetch: URL and `alt` text.
    pub images: Vec<(WebUrl, Option<String>)>,
    pub linked_urls: Vec<WebUrl>,
}

pub struct PageExtractModel {
    pub title: Option<Seq<char>>,
    pub description: Option<Seq<char>>,
    pub icon_url: Option<Seq<char>>,
    pub text_fields: Seq<Seq<char>>,
    pub sections: Seq<Seq<char>>,
    pub keywords: Seq<Seq<char>>,
    pub manifest_url: Option<Seq<char>>,
    pub images: Seq<(Seq<char>, Option<Seq<char>>)>,
    pub linked_urls: Seq<Seq<char>>,
}

impl DeepView for PageExtract {
    type V = PageExtractModel;

    open spec fn deep_view(&self) -> PageExtractModel {
        PageExtractModel {
            title: self.title.deep_view(),
            description: self.description.deep_view(),
            icon_url: self.icon_url.deep_view(),
            text_fields: self.text_fields.deep_view(),
            sections: self.sections.deep_view(),
            keywords: self.keywords.deep_view(),
            manifest_url: self.manifest_url.deep_view(),
            images: self.images.deep_view(),
            linked_urls: self.linked_urls.deep_view(),
        }
    }
}

/// What the page with this text, fetched from `page_url`, holds.
pub open spec fn extract_of(source: Seq<char>, page_url: Seq<char>) -> PageExtractModel {
    PageExtractModel {
        title: first_text_of(source, title_pattern()),
        description: first_attr_of(source, description_pattern(), "content"@),
        icon_url: resolved_first(source, icon_pattern(), "href"@, page_url),
        text_fields: texts_of(source, text_pattern()),
        sections: texts_of(source, sections_pattern()),
        keywords: page_keywords(source),
        manifest_url: resolved_first(source, manifest_pattern(), "href"@, page_url),
        images: resolved_pairs(page_url, pairs_of(source, images_pattern(), "src"@, "alt"@)),
        linked_urls: page_links(source, page_url),
    }
}

/// Parses an HTML page and reads from it what the crawl result holds.
pub fn extract_page(selectors: &SelectorSet, source: &str, page_url: &WebUrl) -> (r: PageExtract)
    requires
        selectors.wf(),
    ensures
        r.deep_view() == extract_of(source@, page_url@),
{
    let doc = Page::new(source);
    PageExtract {
        title: selectors.select_title(&doc),
        description: selectors.select_description(&doc),
        icon_url: selectors.select_icon_url(&doc, page_url),
        text_fields: selectors.select_text_fields(&doc),
        sections: selectors.select_sections(&doc),
        keywords: selectors.select_keywords(&doc),
        manifest_url: selectors.select_manifest_url(&doc, page_url),
        images: selectors.select_images(&doc, page_url),
        linked_urls: selectors.select_urls(&doc, page_url),
    }
}

/// Calls `ImageReader::new`, `with_guessed_format` and `decode` on the bytes,
/// and reads the width and height of the image. Trusted: nothing is claimed
/// of the answer, which is `None` where the bytes cannot be decoded.
#[verifier::external_body]
fn decode_dimensions(bytes: &[u8]) -> (r: Option<(u32, u32)>) {
    match ImageReader::new(Cursor::new(bytes)).with_guessed_format() {
        Ok(reader) => match reader.decode() {
            Ok(decoded) => Some((decoded.width(), decoded.height())),
            Err(_) => None,
        },
        Err(_) => None,
    }
}

/// The size that is reported for an image of this width and height: each
/// cut down to 32 bits with a sign.
pub open spec fn reported_size(dimensions: Option<(u32, u32)>) -> Option<Size> {
    match dimensions {
        Some((width, height)) => Some(Size { width: width as i32, height: height as i32 }),
        None => None,
    }
}

/// The size that is reported for an image of this width and height.
pub fn size_of_dimensions(dimensions: Option<(u32, u32)>) -> (size: Option<Size>)
    ensures
        size == reported_size(dimensions),
{
    match dimensions {
        Some((width, height)) => Some(
            Size { width: #[verifier::truncate] (width as i32), height: #[verifier::truncate] (height as i32) },
        ),
        None => None,
    }
}

/// Decodes an image and reports its size; `None` where the bytes cannot be
/// decoded. Whatever the decoder answers, the size is the one that
/// `size_of_dimensions` reports for it.
pub fn measure_image(bytes: &[u8]) -> (size: Option<Size>)
    ensures
        exists|dimensions: Option<(u32, u32)>| size == reported_size(dimensions),
{
    let dimensions = decode_dimensions(bytes);
    size_of_dimensions(dimensions)
}

/// The entry for an image of a page.
pub fn image_entry(image_url: String, alt_text: Option<String>, size: Option<Size>) -> (entry:
    ImageEntry)
    ensures
        entry.deep_view() == (ImageEntryModel {
            image_url: image_url@,
            size,
            alt_text: alt_text.deep_view(),
        }),
{
    ImageEntry { image_url, size, alt_text }
}

/// The body of the result for an HTML page.
pub open spec fn html_body_of(
    extract: PageExtractModel,
    manifest: Option<crate::payload::ManifestModel>,
    images: Seq<ImageEntryModel>,
) -> HtmlBodyModel {
    HtmlBodyModel {
        title: extract.title,
        description: extract.description,
        icon_url: extract.icon_url,
        text_fields: extract.text_fields,
        sections: extract.sections,
        keywords: extract.keywords,
        manifest,
        images,
    }
}

/// Puts together the result for an HTML page: what was read from the page,
/// with its manifest, if one could be fetched, and its images.
pub fn html_payload(
    status: u16,
    mime_type: String,
    extract: PageExtract,
    manifest: Option<Manifest>,
    images: Vec<ImageEntry>,
) -> (payload: OkPayload)
    ensures
        payload.status == status as i32,
        payload.mime_type@ == mime_type@,
        payload.linked_urls.deep_view() == extract.deep_view().linked_urls,
        payload.body.deep_view() == Some(
            BodyModel::Html(
                html_body_of(extract.deep_view(), manifest.deep_view(), images.deep_view()),
            ),
        ),
{
    let icon_url = match extract.icon_url {
        Some(url) => Some(url.into_string()),
        None => None,
    };
    OkPayload {
        status: status as i32,
        mime_type,
        linked_urls: url_texts(extract.linked_urls),
        body: Some(
            Body::Html(
                HtmlBody {
                    title: extract.title,
                    description: extract.description,
                    icon_url,
                    text_fields: extract.text_fields,
                    sections: extract.sections,
                    keywords: extract.keywords,
                    manifest,
                    images,
                },
            ),
        ),
    }
}

/// The body of the result for content that is not an HTML page. Media are
/// reported without their metadata; a manifest with what was decoded of it;
/// anything else has no body.
pub open spec fn plain_body_of(
    kind: ContentKind,
    manifest: Option<crate::payload::ManifestModel>,
) -> Option<BodyModel> {
    match kind {
        ContentKind::Image => Some(BodyModel::Image { size: None }),
        ContentKind::Video => Some(BodyModel::Video { size: None, length: None }),
        ContentKind::Audio => Some(BodyModel::Audio { length: None }),
        ContentKind::Manifest => match manifest {
            Some(m) => Some(BodyModel::Manifest(m)),
            None => None,
        },
        _ => None,
    }
}

/// Puts together the result for content that is not an HTML page. It has no
/// links.
pub fn plain_payload(status: u16, mime_type: String, kind: ContentKind, manifest: Option<Manifest>) -> (payload:
    OkPayload)
    ensures
        payload.status == status as i32,
        payload.mime_type@ == mime_type@,
        payload.linked_urls.deep_view() == Seq::<Seq<char>>::empty(),
        payload.body.deep_view() == plain_body_of(kind, manifest.deep_view()),
{
    let body = match kind {
        ContentKind::Image => Some(Body::Image { size: None }),
        ContentKind::Video => Some(Body::Video { size: None, length: None }),
        ContentKind::Audio => Some(Body::Audio { length: None }),
        ContentKind::Manifest => match manifest {
            Some(m) => Some(Body::Manifest(m)),
            None => None,
        },
        _ => None,
    };
    let linked_urls: Vec<String> = Vec::new();
    assert(linked_urls.deep_view() =~= Seq::<Seq<char>>::empty());
    OkPayload { status: status as i32, mime_type, linked_urls, body }
}

} // verus!
