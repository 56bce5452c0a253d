//! What the search pages compute before they are drawn: where a form
//! posts to, which name stands for a site, and how the image viewer steps
//! through the results.

use crate::search::SearchWebResult;
use crate::text::{split, split_by, Separator};
use vstd::prelude::*;

verus! {

/// What is searched for: pages or images.
#[derive(Clone, Copy, PartialEq, Eq, Debug, Structural)]
pub enum SearchType {
    Html,
    Image,
}

/// The sizes between which images are looked for, in pixels.
#[derive(Clone, Copy, PartialEq, Eq, Debug, Structural)]
pub struct SizeRange {
    pub min_width: u32,
    pub min_height: u32,
    pub max_width: u32,
    pub max_height: u32,
}

/// The text for which suggestions are asked.
#[derive(Debug)]
pub struct SearchSuggestionQuery {
    query: String,
}

impl SearchSuggestionQuery {
    pub closed spec fn text(&self) -> Seq<char> {
        self.query@
    }

    pub fn new(query: String) -> (r: SearchSuggestionQuery)
        ensures
            r.text() == query@,
    {
        SearchSuggestionQuery { query }
    }

    pub fn query(&self) -> (r: &str)
        ensures
            r@ == self.text(),
    {
        self.query.as_str()
    }
}

/// Which image the viewer shows: the page of results, and the place on it.
/// A negative place counts from the end of the page.
#[derive(Clone, Copy, PartialEq, Eq, Debug, Structural)]
pub struct ViewData {
    pub page: u32,
    pub item: i32,
}

/// The address that a search of this type posts to.
pub open spec fn search_path(search_type: SearchType) -> Seq<char> {
    match search_type {
        SearchType::Html => "/search"@,
        SearchType::Image => "/image/search"@,
    }
}

/// The address that a suggestion leads to, for the page at `path`: the image
/// search where the first part of the path is `image`, the page search
/// otherwise.
pub open spec fn suggestion_path(path: Seq<char>) -> Seq<char> {
    let parts = split_by(path, Separator::Char('/'));
    if parts.len() >= 2 && parts[1] == "image"@ {
        "/image/search"@
    } else {
        "/search"@
    }
}

/// The name shown for a site: its own name, else the page's title, else
/// the page's URL.
pub open spec fn site_name_shown(
    site_name: Option<Seq<char>>,
    title: Option<Seq<char>>,
    url: Seq<char>,
) -> Seq<char> {
    match site_name {
        Some(name) => name,
        None => match title {
            Some(t) => t,
            None => url,
        },
    }
}

/// The place on a page of `count` results that `item` stands for, if it is
/// on the page.
pub open spec fn place_of(item: i32, count: int) -> Option<int> {
    let place = if item < 0 {
        count + item - 1
    } else {
        item as int
    };
    if 0 <= place < count {
        Some(place)
    } else {
        None
    }
}

/// The address that a search of this type posts to.
pub fn search_url(search_type: SearchType) -> (r: String)
    ensures
        r@ == search_path(search_type),
{
    match search_type {
        SearchType::Html => "/search".to_owned(),
        SearchType::Image => "/image/search".to_owned(),
    }
}

/// The address that a suggestion leads to, for the page at `path`.
pub fn suggestion_url(path: &str) -> (r: String)
    ensures
        r@ == suggestion_path(path@),
{
    let parts = split(path, Separator::Char('/'));
    if parts.len() >= 2 {
        assert(parts.deep_view()[1] == parts@[1]@);
        if crate::text::same_text(parts[1].as_str(), "image") {
            return "/image/search".to_owned();
        }
    }
    "/search".to_owned()
}

/// The name shown for the site of a page that was found.
pub fn display_site_name(website: &SearchWebResult) -> (r: String)
    ensures
        r@ == site_name_shown(
            website.site_name.deep_view(),
            website.title.deep_view(),
            website.url@,
        ),
{
    match &website.site_name {
        Some(name) => name.clone(),
        None => match &website.title {
            Some(title) => title.clone(),
            None => website.url.clone(),
        },
    }
}

impl ViewData {
    pub fn new(page: u32, item: i32) -> (r: ViewData)
        ensures
            r == (ViewData { page, item }),
    {
        ViewData { page, item }
    }

    /// The place that the view stands for on a page of `count` results,
    /// if it is on the page.
    pub fn place(&self, count: usize) -> (r: Option<usize>)
        ensures
            r is Some == place_of(self.item, count as int) is Some,
            r matches Some(place) ==> place_of(self.item, count as int) == Some(
                place as int,
            ),
    {
        if self.item < 0 {
            let back = (-(self.item as i64) + 1) as u64;
            if (count as u64) < back {
                None
            } else {
                let place = count - (back as usize);
                if place < count {
                    Some(place)
                } else {
                    None
                }
            }
        } else {
            let place = self.item as usize;
            if place < count {
                Some(place)
            } else {
                None
            }
        }
    }

    /// The view one step on from `place` on a page of `count` results:
    /// the next place, or the start of the next page after the last place.
    /// `None` where there is no next page to count.
    pub fn next(&self, place: usize, count: usize) -> (r: Option<ViewData>)
        requires
            place < count <= 0x7fff_ffff,
        ensures
            r == if place + 1 < count {
                Some(ViewData { page: self.page, item: (place + 1) as i32 })
            } else if self.page < u32::MAX {
                Some(ViewData { page: (self.page + 1) as u32, item: 0 })
            } else {
                None
            },
    {
        if place + 1 < count {
            Some(ViewData { page: self.page, item: (place + 1) as i32 })
        } else if self.page < u32::MAX {
            Some(ViewData { page: self.page + 1, item: 0 })
        } else {
            None
        }
    }

    /// The view one step back from `place`: the place before, or the end
    /// of the page before when `place` is the first. `None` where there is
    /// no page before.
    pub fn previous(&self, place: usize) -> (r: Option<ViewData>)
        requires
            place <= 0x7fff_ffff,
        ensures
            r == if place >= 1 {
                Some(ViewData { page: self.page, item: (place - 1) as i32 })
            } else if self.page >= 1 {
                Some(ViewData { page: (self.page - 1) as u32, item: -1i32 })
            } else {
                None
            },
    {
        if place >= 1 {
            Some(ViewData { page: self.page, item: (place - 1) as i32 })
        } else if self.page >= 1 {
            Some(ViewData { page: self.page - 1, item: -1 })
        } else {
            None
        }
    }
}

} // verus!
