//! A parsed HTML page and the CSS selectors that query it. The `scraper`
//! crate parses both and does the matching; what it finds is handed out as
//! text.

use scraper::{Html, Selector};
use vstd::prelude::*;

verus! {

#[verifier::external_type_specification]
#[verifier::external_body]
pub struct ExHtml(Html);

#[verifier::external_type_specification]
#[verifier::external_body]
pub struct ExSelector(Selector);

/// Whether `Selector::parse` accepts `pattern`.
pub uninterp spec fn selector_accepts(pattern: Seq<char>) -> bool;

/// The number of elements that `Html::select` yields, on the document that
/// `Html::parse_document` reads from `source`, for the selector that
/// `Selector::parse` reads from `pattern`.
pub uninterp spec fn match_count(source: Seq<char>, pattern: Seq<char>) -> nat;

/// What `ElementRef::attr` answers for the attribute `name` of the element
/// that `Html::select` yields at position `index`.
pub uninterp spec fn match_attr(
    source: Seq<char>,
    pattern: Seq<char>,
    index: int,
    name: Seq<char>,
) -> Option<Seq<char>>;

/// The pieces of text that `ElementRef::text` yields for the element that
/// `Html::select` yields at position `index`, one after the other.
pub uninterp spec fn match_text(source: Seq<char>, pattern: Seq<char>, index: int) -> Seq<char>;

/// A CSS selector, compiled once, with the text it was compiled from.
pub struct Pattern {
    text: String,
    compiled: Selector,
}

impl View for Pattern {
    type V = Seq<char>;

    closed spec fn view(&self) -> Seq<char> {
        self.text@
    }
}

/// An HTML document, parsed once, with the text it was parsed from.
pub struct Page {
    source: String,
    dom: Html,
}

impl View for Page {
    type V = Seq<char>;

    closed spec fn view(&self) -> Seq<char> {
        self.source@
    }
}

/// Calls `Selector::parse`. Trusted: whether the selector is accepted
/// depends on `text` alone; the pattern that comes back keeps the text.
#[verifier::external_body]
fn compile_selector(text: &str) -> (r: Option<Pattern>)
    ensures
        r is Some == selector_accepts(text@),
        r matches Some(pattern) ==> pattern@ == text@,
{
    match Selector::parse(text) {
        Ok(compiled) => Some(Pattern { text: text.to_owned(), compiled }),
        Err(_) => None,
    }
}

/// Calls `Html::parse_document`, which accepts every text. Trusted: the page
/// that comes back keeps the text.
#[verifier::external_body]
fn parse_document(source: &str) -> (page: Page)
    ensures
        page@ == source@,
{
    Page { source: source.to_owned(), dom: Html::parse_document(source) }
}

/// Calls `Html::select` and, on each element it yields, `ElementRef::attr`.
/// Trusted: there is one answer for each element, in the order in which the
/// elements are yielded, and the answers depend on the document's text, the
/// selector's text and the attribute's name alone.
#[verifier::external_body]
fn select_attr(page: &Page, pattern: &Pattern, name: &str) -> (values: Vec<Option<String>>)
    ensures
        values@.len() == match_count(page@, pattern@),
        forall|i: int|
            0 <= i < values@.len() ==> (#[trigger] values@[i]).deep_view() == match_attr(
                page@,
                pattern@,
                i,
                name@,
            ),
{
    page.dom.select(&pattern.compiled).map(|element| element.attr(name).map(String::from)).collect()
}

/// Calls `Html::select` and, on each element it yields, `ElementRef::text`.
/// Trusted: there is one text for each element, in the order in which the
/// elements are yielded, and the texts depend on the document's text and the
/// selector's text alone.
#[verifier::external_body]
fn select_text(page: &Page, pattern: &Pattern) -> (texts: Vec<String>)
    ensures
        texts@.len() == match_count(page@, pattern@),
        forall|i: int|
            0 <= i < texts@.len() ==> (#[trigger] texts@[i])@ == match_text(page@, pattern@, i),
{
    page.dom.select(&pattern.compiled).map(|element| element.text().collect::<String>()).collect()
}

/// The values of the attribute `name` on the first `count` matches, those
/// matches left out that lack the attribute.
pub open spec fn attrs_upto(source: Seq<char>, pattern: Seq<char>, name: Seq<char>, count: nat) -> Seq<
    Seq<char>,
>
    decreases count,
{
    if count == 0 {
        Seq::empty()
    } else {
        match match_attr(source, pattern, count - 1, name) {
            Some(value) => attrs_upto(source, pattern, name, (count - 1) as nat).push(value),
            None => attrs_upto(source, pattern, name, (count - 1) as nat),
        }
    }
}

/// The values of the attribute `name` on the elements that match, in
/// document order.
pub open spec fn attrs_of(source: Seq<char>, pattern: Seq<char>, name: Seq<char>) -> Seq<Seq<char>> {
    attrs_upto(source, pattern, name, match_count(source, pattern))
}

/// The value of the attribute `name` on the first element that matches.
pub open spec fn first_attr_of(source: Seq<char>, pattern: Seq<char>, name: Seq<char>) -> Option<
    Seq<char>,
> {
    if match_count(source, pattern) > 0 {
        match_attr(source, pattern, 0, name)
    } else {
        None
    }
}

/// The text of each element that matches, in document order.
pub open spec fn texts_of(source: Seq<char>, pattern: Seq<char>) -> Seq<Seq<char>> {
    Seq::new(match_count(source, pattern), |i: int| match_text(source, pattern, i))
}

/// The text of the first element that matches.
pub open spec fn first_text_of(source: Seq<char>, pattern: Seq<char>) -> Option<Seq<char>> {
    if match_count(source, pattern) > 0 {
        Some(match_text(source, pattern, 0))
    } else {
        None
    }
}

/// The values of the attributes `first` and `second` on the first `count`
/// matches, those matches left out that lack `first`.
pub open spec fn pairs_upto(
    source: Seq<char>,
    pattern: Seq<char>,
    first: Seq<char>,
    second: Seq<char>,
    count: nat,
) -> Seq<(Seq<char>, Option<Seq<char>>)>
    decreases count,
{
    if count == 0 {
        Seq::empty()
    } else {
        match match_attr(source, pattern, count - 1, first) {
            Some(value) => pairs_upto(source, pattern, first, second, (count - 1) as nat).push(
                (value, match_attr(source, pattern, count - 1, second)),
            ),
            None => pairs_upto(source, pattern, first, second, (count - 1) as nat),
        }
    }
}

/// The values of the attributes `first` and `second` on the elements that
/// match and have `first`, in document order.
pub open spec fn pairs_of(
    source: Seq<char>,
    pattern: Seq<char>,
    first: Seq<char>,
    second: Seq<char>,
) -> Seq<(Seq<char>, Option<Seq<char>>)> {
    pairs_upto(source, pattern, first, second, match_count(source, pattern))
}

impl Pattern {
    /// Compiles a CSS selector; `None` if it is not one.
    pub fn new(text: &str) -> (r: Option<Pattern>)
        ensures
            r is Some == selector_accepts(text@),
            r matches Some(pattern) ==> pattern@ == text@,
    {
        compile_selector(text)
    }
}

impl Page {
    /// Parses an HTML document. Every text is accepted.
    pub fn new(source: &str) -> (page: Page)
        ensures
            page@ == source@,
    {
        parse_document(source)
    }

    /// The values of the attribute `name` on the elements that match
    /// `pattern`, in document order. An element without the attribute
    /// contributes nothing.
    pub fn attrs(&self, pattern: &Pattern, name: &str) -> (values: Vec<String>)
        ensures
            values.deep_view() == attrs_of(self@, pattern@, name@),
    {
        let found = select_attr(self, pattern, name);
        let mut values: Vec<String> = Vec::new();
        let mut i: usize = 0;
        assert(values.deep_view() =~= attrs_upto(self@, pattern@, name@, 0));
        while i < found.len()
            invariant
                i <= found@.len(),
                found@.len() == match_count(self@, pattern@),
                forall|k: int|
                    0 <= k < found@.len() ==> (#[trigger] found@[k]).deep_view() == match_attr(
                        self@,
                        pattern@,
                        k,
                        name@,
                    ),
                values.deep_view() == attrs_upto(self@, pattern@, name@, i as nat),
            decreases found@.len() - i,
        {
            let ghost before = values.deep_view();
            match &found[i] {
                Some(value) => {
                    values.push(value.clone());
                    assert(values.deep_view() =~= before.push(value@));
                },
                None => {},
            }
            i += 1;
        }
        values
    }

    /// The value of the attribute `name` on the first element that matches
    /// `pattern`.
    pub fn first_attr(&self, pattern: &Pattern, name: &str) -> (value: Option<String>)
        ensures
            value.deep_view() == first_attr_of(self@, pattern@, name@),
    {
        let found = select_attr(self, pattern, name);
        if found.len() > 0 {
            match &found[0] {
                Some(value) => Some(value.clone()),
                None => None,
            }
        } else {
            None
        }
    }

    /// The text of each element that matches `pattern`, in document order.
    pub fn texts(&self, pattern: &Pattern) -> (texts: Vec<String>)
        ensures
            texts.deep_view() == texts_of(self@, pattern@),
    {
        let texts = select_text(self, pattern);
        assert(texts.deep_view() =~= texts_of(self@, pattern@));
        texts
    }

    /// The text of the first element that matches `pattern`.
    pub fn first_text(&self, pattern: &Pattern) -> (text: Option<String>)
        ensures
            text.deep_view() == first_text_of(self@, pattern@),
    {
        let texts = select_text(self, pattern);
        if texts.len() > 0 {
            Some(texts[0].clone())
        } else {
            None
        }
    }

    /// The values of the attributes `first` and `second` on the elements
    /// that match `pattern` and have `first`, in document order.
    pub fn attr_pairs(&self, pattern: &Pattern, first: &str, second: &str) -> (pairs: Vec<
        (String, Option<String>),
    >)
        ensures
            pairs.deep_view() == pairs_of(self@, pattern@, first@, second@),
    {
        let firsts = select_attr(self, pattern, first);
        let seconds = select_attr(self, pattern, second);
        let mut pairs: Vec<(String, Option<String>)> = Vec::new();
        let mut i: usize = 0;
        assert(pairs.deep_view() =~= pairs_upto(self@, pattern@, first@, second@, 0));
        while i < firsts.len()
            invariant
                i <= firsts@.len(),
                firsts@.len() == match_count(self@, pattern@),
                seconds@.len() == match_count(self@, pattern@),
                forall|k: int|
                    0 <= k < firsts@.len() ==> (#[trigger] firsts@[k]).deep_view() == match_attr(
                        self@,
                        pattern@,
                        k,
                        first@,
                    ),
                forall|k: int|
                    0 <= k < seconds@.len() ==> (#[trigger] seconds@[k]).deep_view() == match_attr(
                        self@,
                        pattern@,
                        k,
                        second@,
                    ),
                pairs.deep_view() == pairs_upto(self@, pattern@, first@, second@, i as nat),
            decreases firsts@.len() - i,
        {
            let ghost before = pairs.deep_view();
            match &firsts[i] {
                Some(value) => {
                    let other = crate::text::copy_text(&seconds[i]);
                    let ghost pair = (value@, other.deep_view());
                    pairs.push((value.clone(), other));
                    assert(pairs.deep_view() =~= before.push(pair));
                },
                None => {},
            }
            i += 1;
        }
        pairs
    }
}

} // verus!
