//! URLs and their normalization: resolve a reference against a base URL and
//! drop the fragment. The `url` crate reads and resolves URLs; here a URL is
//! known by its text.

use url::Url;
use vstd::prelude::*;

verus! {

#[verifier::external_type_specification]
#[verifier::external_body]
pub struct ExUrl(Url);

/// The text of the URL that `Url::parse` reads from `input`, or `None` where
/// it rejects the input.
pub uninterp spec fn parsed_url(input: Seq<char>) -> Option<Seq<char>>;

/// The text of the URL that `Url::join` resolves `reference` to, against the
/// URL with the text `base`; `None` where it rejects the reference.
pub uninterp spec fn joined_url(base: Seq<char>, reference: Seq<char>) -> Option<Seq<char>>;

/// The text of the URL with the text `url`, after `Url::set_fragment(None)`.
pub uninterp spec fn unfragmented_url(url: Seq<char>) -> Seq<char>;

/// An absolute URL, parsed once, with its text.
#[derive(Debug)]
pub struct WebUrl {
    text: String,
    parsed: Url,
}

impl View for WebUrl {
    type V = Seq<char>;

    closed spec fn view(&self) -> Seq<char> {
        self.text@
    }
}

impl DeepView for WebUrl {
    type V = Seq<char>;

    open spec fn deep_view(&self) -> Seq<char> {
        self@
    }
}

/// Calls `Url::parse`. Trusted: whether the input is accepted, and the text
/// of the URL that was read, depend on `input` alone.
#[verifier::external_body]
fn parse_url(input: &str) -> (r: Option<WebUrl>)
    ensures
        r.deep_view() == parsed_url(input@),
{
    match Url::parse(input) {
        Ok(parsed) => Some(WebUrl { text: parsed.as_str().to_owned(), parsed }),
        Err(_) => None,
    }
}

/// Calls `Url::join`. Trusted: whether the reference is accepted, and the
/// text of the URL it resolves to, depend on the text of the base and on
/// `reference` alone.
#[verifier::external_body]
fn join_url(base: &WebUrl, reference: &str) -> (r: Option<WebUrl>)
    ensures
        r.deep_view() == joined_url(base@, reference@),
{
    match base.parsed.join(reference) {
        Ok(parsed) => Some(WebUrl { text: parsed.as_str().to_owned(), parsed }),
        Err(_) => None,
    }
}

/// Calls `Url::set_fragment(None)`. Trusted: the text of the URL that is
/// left depends on the text of `url` alone.
#[verifier::external_body]
fn clear_fragment(url: WebUrl) -> (r: WebUrl)
    ensures
        r@ == unfragmented_url(url@),
{
    let mut parsed = url.parsed;
    parsed.set_fragment(None);
    WebUrl { text: parsed.as_str().to_owned(), parsed }
}

/// `raw` resolved against `base`, without its fragment; `None` where `raw`
/// cannot be resolved.
pub open spec fn normalized(base: Seq<char>, raw: Seq<char>) -> Option<Seq<char>> {
    match joined_url(base, raw) {
        Some(url) => Some(unfragmented_url(url)),
        None => None,
    }
}

/// The normalized forms of those of `raws` that can be resolved against
/// `base`, in order.
pub open spec fn normalized_all(base: Seq<char>, raws: Seq<Seq<char>>) -> Seq<Seq<char>>
    decreases raws.len(),
{
    if raws.len() == 0 {
        Seq::empty()
    } else {
        match normalized(base, raws.last()) {
            Some(url) => normalized_all(base, raws.drop_last()).push(url),
            None => normalized_all(base, raws.drop_last()),
        }
    }
}

impl WebUrl {
    /// Reads an absolute URL; `None` where the text is not one.
    pub fn parse(input: &str) -> (r: Option<WebUrl>)
        ensures
            r.deep_view() == parsed_url(input@),
    {
        parse_url(input)
    }

    /// The text of the URL.
    pub fn as_str(&self) -> (r: &str)
        ensures
            r@ == self@,
    {
        self.text.as_str()
    }

    /// The text of the URL.
    pub fn into_string(self) -> (r: String)
        ensures
            r@ == self@,
    {
        self.text
    }
}

/// Resolves `raw` as a reference against `base` and clears the fragment.
/// The scheme is not looked at.
pub fn normalize_url(raw: &str, base: &WebUrl) -> (r: Option<WebUrl>)
    ensures
        r.deep_view() == normalized(base@, raw@),
{
    match join_url(base, raw) {
        Some(url) => Some(clear_fragment(url)),
        None => None,
    }
}

/// Normalizes each of `raws` against `base` and drops those that cannot be
/// resolved.
pub fn normalize_all(raws: &Vec<String>, base: &WebUrl) -> (urls: Vec<WebUrl>)
    ensures
        urls.deep_view() == normalized_all(base@, raws.deep_view()),
{
    let mut urls: Vec<WebUrl> = Vec::new();
    let mut i: usize = 0;
    assert(raws.deep_view().take(0) =~= Seq::<Seq<char>>::empty());
    assert(urls.deep_view() =~= normalized_all(base@, raws.deep_view().take(0)));
    while i < raws.len()
        invariant
            i <= raws@.len(),
            urls.deep_view() == normalized_all(base@, raws.deep_view().take(i as int)),
        decreases raws@.len() - i,
    {
        let ghost before = urls.deep_view();
        assert(raws.deep_view().take(i + 1).drop_last() =~= raws.deep_view().take(i as int));
        assert(raws.deep_view().take(i + 1).last() == raws@[i as int]@);
        match normalize_url(raws[i].as_str(), base) {
            Some(url) => {
                let ghost text = url@;
                urls.push(url);
                assert(urls.deep_view() =~= before.push(text));
            },
            None => {},
        }
        i += 1;
    }
    assert(raws.deep_view().take(i as int) =~= raws.deep_view());
    urls
}

/// The texts of the URLs, in order.
pub fn url_texts(urls: Vec<WebUrl>) -> (texts: Vec<String>)
    ensures
        texts.deep_view() == urls.deep_view(),
{
    let mut texts: Vec<String> = Vec::new();
    let mut i: usize = 0;
    while i < urls.len()
        invariant
            i <= urls@.len(),
            texts@.len() == i,
            forall|k: int| 0 <= k < i ==> (#[trigger] texts@[k])@ == urls@[k]@,
        decreases urls@.len() - i,
    {
        texts.push(urls[i].as_str().to_owned());
        i += 1;
    }
    assert(texts.deep_view() =~= urls.deep_view());
    texts
}

} // verus!
