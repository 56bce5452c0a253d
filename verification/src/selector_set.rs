//! The selectors with which a page is read: where its links stand, and
//! where its title, description, icon, text, headings, keywords, manifest and
//! images stand.

use crate::links::{listed_all, read_listings, Listing};
use crate::page::{
    attrs_of, first_attr_of, first_text_of, pairs_of, selector_accepts, texts_of, Page, Pattern,
};
use crate::text::{split, split_by, trim_all, trimmed_all, Separator};
use crate::weburl::{normalize_all, normalize_url, normalized, normalized_all, WebUrl};
use vstd::prelude::*;

verus! {

/// The attributes whose value is a URL.
pub open spec fn link_attributes() -> Seq<Seq<char>> {
    seq![
        "href"@,
        "codebase"@,
        "cite"@,
        "background"@,
        "action"@,
        "longdesc"@,
        "src"@,
        "profile"@,
        "usemap"@,
        "classid"@,
        "data"@,
        "formaction"@,
        "icon"@,
        "manifest"@,
        "poster"@,
    ]
}

/// The selector for the elements that carry the attribute `name`.
pub open spec fn attribute_pattern(name: Seq<char>) -> Seq<char> {
    "["@ + name + "]"@
}

pub open spec fn srcset_pattern() -> Seq<char> {
    "[srcset]"@
}

pub open spec fn archive_pattern() -> Seq<char> {
    "[archive]"@
}

pub open spec fn refresh_pattern() -> Seq<char> {
    "meta[http-equiv=\"refresh\"][content]"@
}

pub open spec fn title_pattern() -> Seq<char> {
    "title"@
}

pub open spec fn description_pattern() -> Seq<char> {
    "meta[name=\"description\"][content]"@
}

pub open spec fn keywords_pattern() -> Seq<char> {
    "meta[name=\"keywords\"][content]"@
}

pub open spec fn icon_pattern() -> Seq<char> {
    "link[rel=\"icon\"][href]"@
}

pub open spec fn text_pattern() -> Seq<char> {
    "p"@
}

pub open spec fn sections_pattern() -> Seq<char> {
    "h1, h2, h3, h4, h5, h6"@
}

pub open spec fn manifest_pattern() -> Seq<char> {
    "link[rel=\"manifest\"][href]"@
}

pub open spec fn images_pattern() -> Seq<char> {
    "img[src]"@
}

/// Every selector of the set is one that the selector engine accepts.
pub open spec fn selectors_accepted() -> bool {
    &&& forall|i: int|
        0 <= i < link_attributes().len() ==> selector_accepts(
            attribute_pattern(#[trigger] link_attributes()[i]),
        )
    &&& selector_accepts(srcset_pattern())
    &&& selector_accepts(archive_pattern())
    &&& selector_accepts(refresh_pattern())
    &&& selector_accepts(title_pattern())
    &&& selector_accepts(description_pattern())
    &&& selector_accepts(keywords_pattern())
    &&& selector_accepts(icon_pattern())
    &&& selector_accepts(text_pattern())
    &&& selector_accepts(sections_pattern())
    &&& selector_accepts(manifest_pattern())
    &&& selector_accepts(images_pattern())
}

/// The values of the first `count` of the link attributes, attribute by
/// attribute, each in document order.
pub open spec fn plain_links(source: Seq<char>, count: nat) -> Seq<Seq<char>>
    decreases count,
{
    if count == 0 || count > link_attributes().len() {
        Seq::empty()
    } else {
        plain_links(source, (count - 1) as nat) + attrs_of(
            source,
            attribute_pattern(link_attributes()[count - 1]),
            link_attributes()[count - 1],
        )
    }
}

/// Every text of the page that may be a link, before it is resolved: the
/// values of the link attributes, then what the `srcset` attributes list,
/// then what the `archive` attributes list, then the targets of the
/// refreshes.
pub open spec fn link_candidates(source: Seq<char>) -> Seq<Seq<char>> {
    plain_links(source, link_attributes().len()) + listed_all(
        Listing::Srcset,
        attrs_of(source, srcset_pattern(), "srcset"@),
    ) + listed_all(Listing::Archive, attrs_of(source, archive_pattern(), "archive"@)) + listed_all(
        Listing::Refresh,
        attrs_of(source, refresh_pattern(), "content"@),
    )
}

/// The links of the page: its candidates, each resolved against the page's
/// URL, those left out that cannot be resolved.
pub open spec fn page_links(source: Seq<char>, page_url: Seq<char>) -> Seq<Seq<char>> {
    normalized_all(page_url, link_candidates(source))
}

/// The first of the page's elements of this kind whose attribute is given,
/// resolved against the page's URL.
pub open spec fn resolved_first(
    source: Seq<char>,
    pattern: Seq<char>,
    name: Seq<char>,
    page_url: Seq<char>,
) -> Option<Seq<char>> {
    match first_attr_of(source, pattern, name) {
        Some(raw) => normalized(page_url, raw),
        None => None,
    }
}

/// The pairs whose first part can be resolved against `base`, with that
/// part resolved.
pub open spec fn resolved_pairs(base: Seq<char>, pairs: Seq<(Seq<char>, Option<Seq<char>>)>) -> Seq<
    (Seq<char>, Option<Seq<char>>),
>
    decreases pairs.len(),
{
    if pairs.len() == 0 {
        Seq::empty()
    } else {
        match normalized(base, pairs.last().0) {
            Some(url) => resolved_pairs(base, pairs.drop_last()).push((url, pairs.last().1)),
            None => resolved_pairs(base, pairs.drop_last()),
        }
    }
}

/// The keywords of the page: the pieces between the commas of the first
/// keywords declaration, each trimmed.
pub open spec fn page_keywords(source: Seq<char>) -> Seq<Seq<char>> {
    match first_attr_of(source, keywords_pattern(), "content"@) {
        Some(content) => trimmed_all(split_by(content, Separator::Char(','))),
        None => Seq::empty(),
    }
}

/// A link attribute with the selector for the elements that carry it.
pub struct LinkRule {
    attr: String,
    pattern: Pattern,
}

pub struct SelectorSet {
    link_rules: Vec<LinkRule>,
    srcset: Pattern,
    archive: Pattern,
    refresh: Pattern,
    title: Pattern,
    description: Pattern,
    keywords: Pattern,
    icon_link: Pattern,
    text_fields: Pattern,
    sections: Pattern,
    link_manifest: Pattern,
    images: Pattern,
}

/// The names of the link attributes.
fn link_attribute_names() -> (names: Vec<&'static str>)
    ensures
        names@.len() == link_attributes().len(),
        forall|i: int| 0 <= i < names@.len() ==> (#[trigger] names@[i])@ == link_attributes()[i],
{
    let mut names: Vec<&'static str> = Vec::new();
    names.push("href");
    names.push("codebase");
    names.push("cite");
    names.push("background");
    names.push("action");
    names.push("longdesc");
    names.push("src");
    names.push("profile");
    names.push("usemap");
    names.push("classid");
    names.push("data");
    names.push("formaction");
    names.push("icon");
    names.push("manifest");
    names.push("poster");
    names
}

impl SelectorSet {
    /// Each selector is the one its place asks for.
    pub closed spec fn wf(&self) -> bool {
        &&& self.link_rules@.len() == link_attributes().len()
        &&& forall|i: int|
            0 <= i < self.link_rules@.len() ==> {
                &&& (#[trigger] self.link_rules@[i]).attr@ == link_attributes()[i]
                &&& self.link_rules@[i].pattern@ == attribute_pattern(link_attributes()[i])
            }
        &&& self.srcset@ == srcset_pattern()
        &&& self.archive@ == archive_pattern()
        &&& self.refresh@ == refresh_pattern()
        &&& self.title@ == title_pattern()
        &&& self.description@ == description_pattern()
        &&& self.keywords@ == keywords_pattern()
        &&& self.icon_link@ == icon_pattern()
        &&& self.text_fields@ == text_pattern()
        &&& self.sections@ == sections_pattern()
        &&& self.link_manifest@ == manifest_pattern()
        &&& self.images@ == images_pattern()
    }

    /// Compiles the selectors. There is a set exactly if the selector
    /// engine accepts each of them.
    pub fn new() -> (r: Option<SelectorSet>)
        ensures
            r is Some == selectors_accepted(),
            r matches Some(set) ==> set.wf(),
    {
        let names = link_attribute_names();
        let mut link_rules: Vec<LinkRule> = Vec::new();
        let mut i: usize = 0;
        while i < names.len()
            invariant
                i <= names@.len(),
                names@.len() == link_attributes().len(),
                forall|k: int|
                    0 <= k < names@.len() ==> (#[trigger] names@[k])@ == link_attributes()[k],
                link_rules@.len() == i,
                forall|k: int|
                    0 <= k < i ==> {
                        &&& (#[trigger] link_rules@[k]).attr@ == link_attributes()[k]
                        &&& link_rules@[k].pattern@ == attribute_pattern(link_attributes()[k])
                        &&& selector_accepts(attribute_pattern(link_attributes()[k]))
                    },
            decreases names@.len() - i,
        {
            let mut text = String::from_str("[");
            text.append(names[i]);
            text.append("]");
            assert(text@ =~= attribute_pattern(link_attributes()[i as int]));
            match Pattern::new(text.as_str()) {
                Some(pattern) => {
                    link_rules.push(LinkRule { attr: names[i].to_owned(), pattern });
                },
                None => {
                    assert(!selector_accepts(attribute_pattern(link_attributes()[i as int])));
                    return None;
                },
            }
            i += 1;
        }
        assert forall|k: int| 0 <= k < link_attributes().len() implies selector_accepts(
            attribute_pattern(#[trigger] link_attributes()[k]),
        ) by {
            assert(link_rules@[k].attr@ == link_attributes()[k]);
        }
        let srcset = match Pattern::new("[srcset]") {
            Some(pattern) => pattern,
            None => {
                return None;
            },
        };
        let archive = match Pattern::new("[archive]") {
            Some(pattern) => pattern,
            None => {
                return None;
            },
        };
        let refresh = match Pattern::new("meta[http-equiv=\"refresh\"][content]") {
            Some(pattern) => pattern,
            None => {
                return None;
            },
        };
        let title = match Pattern::new("title") {
            Some(pattern) => pattern,
            None => {
                return None;
            },
        };
        let description = match Pattern::new("meta[name=\"description\"][content]") {
            Some(pattern) => pattern,
            None => {
                return None;
            },
        };
        let keywords = match Pattern::new("meta[name=\"keywords\"][content]") {
            Some(pattern) => pattern,
            None => {
                return None;
            },
        };
        let icon_link = match Pattern::new("link[rel=\"icon\"][href]") {
            Some(pattern) => pattern,
            None => {
                return None;
            },
        };
        let text_fields = match Pattern::new("p") {
            Some(pattern) => pattern,
            None => {
                return None;
            },
        };
        let sections = match Pattern::new("h1, h2, h3, h4, h5, h6") {
            Some(pattern) => pattern,
            None => {
                return None;
            },
        };
        let link_manifest = match Pattern::new("link[rel=\"manifest\"][href]") {
            Some(pattern) => pattern,
            None => {
                return None;
            },
        };
        let images = match Pattern::new("img[src]") {
            Some(pattern) => pattern,
            None => {
                return None;
            },
        };
        Some(
            SelectorSet {
                link_rules,
                srcset,
                archive,
                refresh,
                title,
                description,
                keywords,
                icon_link,
                text_fields,
                sections,
                link_manifest,
                images,
            },
        )
    }

    /// The URL of the page's web manifest: the `href` of the first
    /// `<link rel="manifest">`, resolved against the page's URL.
    pub fn select_manifest_url(&self, doc: &Page, page_url: &WebUrl) -> (r: Option<WebUrl>)
        requires
            self.wf(),
        ensures
            r.deep_view() == resolved_first(doc@, manifest_pattern(), "href"@, page_url@),
    {
        match doc.first_attr(&self.link_manifest, "href") {
            Some(raw) => normalize_url(raw.as_str(), page_url),
            None => None,
        }
    }

    /// The images of the page: for each `<img src>`, its URL resolved
    /// against the page's URL, and its `alt` text. An image whose URL cannot
    /// be resolved is left out.
    pub fn select_images(&self, doc: &Page, page_url: &WebUrl) -> (r: Vec<(WebUrl, Option<String>)>)
        requires
            self.wf(),
        ensures
            r.deep_view() == resolved_pairs(
                page_url@,
                pairs_of(doc@, images_pattern(), "src"@, "alt"@),
            ),
    {
        let pairs = doc.attr_pairs(&self.images, "src", "alt");
        let mut r: Vec<(WebUrl, Option<String>)> = Vec::new();
        let mut i: usize = 0;
        assert(pairs.deep_view().take(0) =~= Seq::<(Seq<char>, Option<Seq<char>>)>::empty());
        assert(r.deep_view() =~= resolved_pairs(page_url@, pairs.deep_view().take(0)));
        while i < pairs.len()
            invariant
                i <= pairs@.len(),
                r.deep_view() == resolved_pairs(page_url@, pairs.deep_view().take(i as int)),
            decreases pairs@.len() - i,
        {
            let ghost before = r.deep_view();
            assert(pairs.deep_view().take(i + 1).drop_last() =~= pairs.deep_view().take(i as int));
            assert(pairs.deep_view().take(i + 1).last() == pairs@[i as int].deep_view());
            match normalize_url(pairs[i].0.as_str(), page_url) {
                Some(url) => {
                    let alt = crate::text::copy_text(&pairs[i].1);
                    let ghost pair = (url@, alt.deep_view());
                    r.push((url, alt));
                    assert(r.deep_view() =~= before.push(pair));
                },
                None => {},
            }
            i += 1;
        }
        assert(pairs.deep_view().take(i as int) =~= pairs.deep_view());
        r
    }

    /// The title of the page: the text of the first `<title>`.
    pub fn select_title(&self, doc: &Page) -> (r: Option<String>)
        requires
            self.wf(),
        ensures
            r.deep_view() == first_text_of(doc@, title_pattern()),
    {
        doc.first_text(&self.title)
    }

    /// The description of the page: the `content` of the first
    /// `<meta name="description">`.
    pub fn select_description(&self, doc: &Page) -> (r: Option<String>)
        requires
            self.wf(),
        ensures
            r.deep_view() == first_attr_of(doc@, description_pattern(), "content"@),
    {
        doc.first_attr(&self.description, "content")
    }

    /// The URL of the page's icon: the `href` of the first
    /// `<link rel="icon">`, resolved against the page's URL.
    pub fn select_icon_url(&self, doc: &Page, page_url: &WebUrl) -> (r: Option<WebUrl>)
        requires
            self.wf(),
        ensures
            r.deep_view() == resolved_first(doc@, icon_pattern(), "href"@, page_url@),
    {
        match doc.first_attr(&self.icon_link, "href") {
            Some(raw) => normalize_url(raw.as_str(), page_url),
            None => None,
        }
    }

    /// The text of each `<p>`, in document order.
    pub fn select_text_fields(&self, doc: &Page) -> (r: Vec<String>)
        requires
            self.wf(),
        ensures
            r.deep_view() == texts_of(doc@, text_pattern()),
    {
        doc.texts(&self.text_fields)
    }

    /// The text of each heading, `<h1>` to `<h6>`, in document order.
    pub fn select_sections(&self, doc: &Page) -> (r: Vec<String>)
        requires
            self.wf(),
        ensures
            r.deep_view() == texts_of(doc@, sections_pattern()),
    {
        doc.texts(&self.sections)
    }

    /// The keywords of the page: the `content` of the first
    /// `<meta name="keywords">`, split at its commas, each piece trimmed.
    pub fn select_keywords(&self, doc: &Page) -> (r: Vec<String>)
        requires
            self.wf(),
        ensures
            r.deep_view() == page_keywords(doc@),
    {
        match doc.first_attr(&self.keywords, "content") {
            Some(content) => {
                let pieces = split(content.as_str(), Separator::Char(','));
                trim_all(&pieces)
            },
            None => {
                let r: Vec<String> = Vec::new();
                assert(r.deep_view() =~= Seq::<Seq<char>>::empty());
                r
            },
        }
    }

    /// The values of the link attributes, attribute by attribute.
    fn select_plain_links(&self, doc: &Page) -> (r: Vec<String>)
        requires
            self.wf(),
        ensures
            r.deep_view() == plain_links(doc@, link_attributes().len()),
    {
        let mut r: Vec<String> = Vec::new();
        let mut i: usize = 0;
        assert(r.deep_view() =~= plain_links(doc@, 0));
        while i < self.link_rules.len()
            invariant
                i <= self.link_rules@.len(),
                self.wf(),
                r.deep_view() == plain_links(doc@, i as nat),
            decreases self.link_rules@.len() - i,
        {
            let rule = &self.link_rules[i];
            let mut values = doc.attrs(&rule.pattern, rule.attr.as_str());
            let ghost before = r.deep_view();
            let ghost added = values.deep_view();
            r.append(&mut values);
            assert(r.deep_view() =~= before + added);
            i += 1;
        }
        r
    }

    /// The links of the page, each resolved against the page's URL. A text
    /// that cannot be resolved is left out.
    pub fn select_urls(&self, doc: &Page, page_url: &WebUrl) -> (r: Vec<WebUrl>)
        requires
            self.wf(),
        ensures
            r.deep_view() == page_links(doc@, page_url@),
    {
        let mut candidates = self.select_plain_links(doc);
        let srcsets = doc.attrs(&self.srcset, "srcset");
        let mut from_srcsets = read_listings(Listing::Srcset, &srcsets);
        let archives = doc.attrs(&self.archive, "archive");
        let mut from_archives = read_listings(Listing::Archive, &archives);
        let refreshes = doc.attrs(&self.refresh, "content");
        let mut from_refreshes = read_listings(Listing::Refresh, &refreshes);
        let ghost a = candidates.deep_view();
        let ghost b = from_srcsets.deep_view();
        let ghost c = from_archives.deep_view();
        let ghost d = from_refreshes.deep_view();
        candidates.append(&mut from_srcsets);
        assert(candidates.deep_view() =~= a + b);
        candidates.append(&mut from_archives);
        assert(candidates.deep_view() =~= a + b + c);
        candidates.append(&mut from_refreshes);
        assert(candidates.deep_view() =~= a + b + c + d);
        normalize_all(&candidates, page_url)
    }
}

} // verus!
