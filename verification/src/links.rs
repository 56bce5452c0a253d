//! The attributes that hold more than a plain URL: `srcset`, `archive`, and
//! the `content` of a `<meta http-equiv="refresh">`.

use crate::text::{
    begins_with, split, split_all, split_by, split_each, split_whitespace, strip_prefix,
    words, Separator,
};
use vstd::prelude::*;

verus! {

/// The kinds of attribute that hold more than a plain URL.
#[derive(Clone, Copy, PartialEq, Eq, Debug, Structural)]
pub enum Listing {
    Srcset,
    Archive,
    Refresh,
}

/// The second of the pieces of `item` that single spaces separate, if there
/// are two.
pub open spec fn second_token(item: Seq<char>) -> Option<Seq<char>> {
    let tokens = split_by(item, Separator::Char(' '));
    if tokens.len() >= 2 {
        Some(tokens[1])
    } else {
        None
    }
}

/// The second token of each of `items` that has one, in order.
pub open spec fn second_tokens(items: Seq<Seq<char>>) -> Seq<Seq<char>>
    decreases items.len(),
{
    if items.len() == 0 {
        Seq::empty()
    } else {
        match second_token(items.last()) {
            Some(token) => second_tokens(items.drop_last()).push(token),
            None => second_tokens(items.drop_last()),
        }
    }
}

/// What a `srcset` attribute contributes: of each item between commas, the
/// second piece between single spaces. An item without a second piece
/// contributes nothing.
pub open spec fn srcset_candidates(value: Seq<char>) -> Seq<Seq<char>> {
    second_tokens(split_by(value, Separator::Char(',')))
}

/// What an `archive` attribute contributes: its words, each split at its
/// commas.
pub open spec fn archive_tokens(value: Seq<char>) -> Seq<Seq<char>> {
    split_each(words(value), Separator::Char(','))
}

/// The target of a refresh: the second of the pieces of `content` between
/// semicolons, without `URL=` at its start. A `content` without a second
/// piece has no target.
pub open spec fn refresh_url(content: Seq<char>) -> Option<Seq<char>> {
    let pieces = split_by(content, Separator::Char(';'));
    if pieces.len() < 2 {
        None
    } else if begins_with(pieces[1], "URL="@) {
        Some(pieces[1].subrange("URL="@.len() as int, pieces[1].len() as int))
    } else {
        Some(pieces[1])
    }
}

/// What one attribute value of the given kind contributes.
pub open spec fn listed(kind: Listing, value: Seq<char>) -> Seq<Seq<char>> {
    match kind {
        Listing::Srcset => srcset_candidates(value),
        Listing::Archive => archive_tokens(value),
        Listing::Refresh => match refresh_url(value) {
            Some(url) => seq![url],
            None => Seq::empty(),
        },
    }
}

/// What the attribute values contribute, one after the other.
pub open spec fn listed_all(kind: Listing, values: Seq<Seq<char>>) -> Seq<Seq<char>>
    decreases values.len(),
{
    if values.len() == 0 {
        Seq::empty()
    } else {
        listed_all(kind, values.drop_last()) + listed(kind, values.last())
    }
}

/// Reads the candidates of a `srcset` attribute.
pub fn srcset_urls(value: &str) -> (r: Vec<String>)
    ensures
        r.deep_view() == srcset_candidates(value@),
{
    let items = split(value, Separator::Char(','));
    let mut r: Vec<String> = Vec::new();
    let mut i: usize = 0;
    assert(items.deep_view().take(0) =~= Seq::<Seq<char>>::empty());
    assert(r.deep_view() =~= second_tokens(items.deep_view().take(0)));
    while i < items.len()
        invariant
            i <= items@.len(),
            r.deep_view() == second_tokens(items.deep_view().take(i as int)),
        decreases items@.len() - i,
    {
        let ghost before = r.deep_view();
        assert(items.deep_view().take(i + 1).drop_last() =~= items.deep_view().take(i as int));
        assert(items.deep_view().take(i + 1).last() == items@[i as int]@);
        let tokens = split(items[i].as_str(), Separator::Char(' '));
        if tokens.len() >= 2 {
            assert(tokens.deep_view()[1] == tokens@[1]@);
            r.push(tokens[1].clone());
            assert(r.deep_view() =~= before.push(tokens@[1]@));
        }
        i += 1;
    }
    assert(items.deep_view().take(i as int) =~= items.deep_view());
    r
}

/// Reads the tokens of an `archive` attribute.
pub fn archive_urls(value: &str) -> (r: Vec<String>)
    ensures
        r.deep_view() == archive_tokens(value@),
{
    let parts = split_whitespace(value);
    split_all(&parts, Separator::Char(','))
}

/// Reads the target of a `<meta http-equiv="refresh">` from its `content`.
pub fn refresh_target(content: &str) -> (r: Option<String>)
    ensures
        r.deep_view() == refresh_url(content@),
        split_by(content@, Separator::Char(';')).len() < 2 ==> r is None,
{
    let pieces = split(content, Separator::Char(';'));
    if pieces.len() < 2 {
        return None;
    }
    assert(pieces.deep_view()[1] == pieces@[1]@);
    match strip_prefix(pieces[1].as_str(), "URL=") {
        Some(rest) => Some(rest),
        None => Some(pieces[1].clone()),
    }
}

/// Reads what one attribute value of the given kind contributes.
pub fn read_listing(kind: Listing, value: &str) -> (r: Vec<String>)
    ensures
        r.deep_view() == listed(kind, value@),
{
    match kind {
        Listing::Srcset => srcset_urls(value),
        Listing::Archive => archive_urls(value),
        Listing::Refresh => {
            let mut r: Vec<String> = Vec::new();
            match refresh_target(value) {
                Some(url) => {
                    let ghost text = url@;
                    r.push(url);
                    assert(r.deep_view() =~= seq![text]);
                },
                None => {
                    assert(r.deep_view() =~= Seq::<Seq<char>>::empty());
                },
            }
            r
        },
    }
}

/// Reads what the attribute values contribute, one after the other.
pub fn read_listings(kind: Listing, values: &Vec<String>) -> (r: Vec<String>)
    ensures
        r.deep_view() == listed_all(kind, values.deep_view()),
{
    let mut r: Vec<String> = Vec::new();
    let mut i: usize = 0;
    assert(values.deep_view().take(0) =~= Seq::<Seq<char>>::empty());
    assert(r.deep_view() =~= listed_all(kind, values.deep_view().take(0)));
    while i < values.len()
        invariant
            i <= values@.len(),
            r.deep_view() == listed_all(kind, values.deep_view().take(i as int)),
        decreases values@.len() - i,
    {
        assert(values.deep_view().take(i + 1).drop_last() =~= values.deep_view().take(i as int));
        assert(values.deep_view().take(i + 1).last() == values@[i as int]@);
        let mut found = read_listing(kind, values[i].as_str());
        let ghost before = r.deep_view();
        let ghost added = found.deep_view();
        r.append(&mut found);
        assert(r.deep_view() =~= before + added);
        i += 1;
    }
    assert(values.deep_view().take(i as int) =~= values.deep_view());
    r
}

} // verus!
