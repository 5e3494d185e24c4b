//! JSON-LD metadata, read with `serde_json` one layer at a time.

use vstd::prelude::*;

use crate::markup::{attribute_views, value_of};
use crate::text::{
    ascii_lower, chars_of, ends_with, ends_with_text, join, join_parts, same_text, split_words,
    starts_with, starts_with_text, string_of, texts, to_ascii_lower, words,
};

verus! {

/// The outermost layer of a JSON value. The values inside a list or an object
/// are JSON texts again.
#[derive(Debug)]
pub enum JsonLayer {
    Other,
    Text(String),
    List(Vec<String>),
    Object(Vec<(String, String)>),
}

pub ghost enum LayerView {
    Other,
    Text(Seq<char>),
    List(Seq<Seq<char>>),
    Object(Seq<(Seq<char>, Seq<char>)>),
}

impl View for JsonLayer {
    type V = LayerView;

    open spec fn view(&self) -> LayerView {
        match *self {
            JsonLayer::Other => LayerView::Other,
            JsonLayer::Text(text) => LayerView::Text(text@),
            JsonLayer::List(items) => LayerView::List(texts(items@)),
            JsonLayer::Object(fields) => LayerView::Object(attribute_views(fields@)),
        }
    }
}

pub open spec fn layer_view(layer: Option<JsonLayer>) -> Option<LayerView> {
    match layer {
        Some(value) => Some(value@),
        None => None,
    }
}

/// The outermost layer of a JSON text; `None` where it is none.
pub uninterp spec fn json_layer(text: Seq<char>) -> Option<LayerView>;

/// `serde_json::from_str` into a `Value`, whose inner values are written as
/// JSON again: a function of the text alone.
#[verifier::external_body]
fn read_layer(text: &str) -> (r: Option<JsonLayer>)
    ensures
        layer_view(r) == json_layer(text@),
{
    Some(match serde_json::from_str(text).ok()? {
        serde_json::Value::String(s) => JsonLayer::Text(s),
        serde_json::Value::Array(v) => JsonLayer::List(v.iter().map(|x| x.to_string()).collect()),
        serde_json::Value::Object(m) => {
            JsonLayer::Object(m.iter().map(|(k, x)| (k.clone(), x.to_string())).collect())
        },
        serde_json::Value::Null => JsonLayer::Other,
        serde_json::Value::Bool(_) => JsonLayer::Other,
        serde_json::Value::Number(_) => JsonLayer::Other,
    })
}

/// `serde_json` reads no deeper than this.
pub const DEPTH_LIMIT: u32 = 128;

/// The fields of an object, as a member is looked up in them.
pub open spec fn member(layer: LayerView, key: Seq<char>) -> Option<Seq<char>> {
    match layer {
        LayerView::Object(fields) => value_of(fields, key),
        _ => None,
    }
}

fn find_member(fields: &[(String, String)], key: &str) -> (r: Option<usize>)
    ensures
        match r {
            Some(i) => i < fields.len() && value_of(attribute_views(fields@), key@) == Some(
                fields@[i as int].1@,
            ),
            None => value_of(attribute_views(fields@), key@) is None,
        },
{
    let ghost all = attribute_views(fields@);
    let mut found: Option<usize> = None;
    let mut i: usize = 0;
    while i < fields.len()
        invariant
            i <= fields.len(),
            all == attribute_views(fields@),
            match found {
                Some(k) => k < i && value_of(all.take(i as int), key@) == Some(
                    fields@[k as int].1@,
                ),
                None => value_of(all.take(i as int), key@) is None,
            },
        decreases fields.len() - i,
    {
        proof {
            assert(all.take(i + 1).drop_last() =~= all.take(i as int));
            assert(all.take(i + 1).last() == all[i as int]);
        }
        if found.is_none() && same_text(&fields[i].0, key) {
            found = Some(i);
        }
        i += 1;
    }
    proof {
        assert(all.take(all.len() as int) =~= all);
    }
    found
}

/// A type name that stands for an article.
pub open spec fn article_type(kind: Seq<char>) -> bool {
    ends_with(ascii_lower(kind), "article"@) || ascii_lower(kind) == "blogposting"@
}

pub fn is_article_type(kind: &str) -> (r: bool)
    ensures
        r == article_type(kind@),
{
    let lower = to_ascii_lower(&chars_of(kind));
    ends_with_text(&lower, "article") || same_text(&string_of(&lower), "blogposting")
}

pub open spec fn text_layer(text: Seq<char>) -> Option<Seq<char>> {
    match json_layer(text) {
        Some(LayerView::Text(value)) => Some(value),
        _ => None,
    }
}

/// The value of `@type` names an article, alone or in a list.
pub open spec fn names_article(text: Seq<char>) -> bool {
    match json_layer(text) {
        Some(LayerView::Text(kind)) => article_type(kind),
        Some(LayerView::List(items)) => exists|i: int|
            0 <= i < items.len() && text_layer(#[trigger] items[i]) is Some && article_type(
                text_layer(items[i])->0,
            ),
        _ => false,
    }
}

fn type_names_article(text: &str) -> (r: bool)
    ensures
        r == names_article(text@),
{
    match read_layer(text) {
        Some(JsonLayer::Text(kind)) => is_article_type(&kind),
        Some(JsonLayer::List(items)) => {
            let mut i: usize = 0;
            while i < items.len()
                invariant
                    i <= items.len(),
                    json_layer(text@) == Some(LayerView::List(texts(items@))),
                    forall|k: int|
                        0 <= k < i ==> !(text_layer(#[trigger] texts(items@)[k]) is Some
                            && article_type(text_layer(texts(items@)[k])->0)),
                decreases items.len() - i,
            {
                match read_layer(&items[i]) {
                    Some(JsonLayer::Text(kind)) => {
                        if is_article_type(&kind) {
                            proof {
                                assert(text_layer(texts(items@)[i as int]) is Some);
                            }
                            return true;
                        }
                    },
                    _ => {},
                }
                i += 1;
            }
            false
        },
        _ => false,
    }
}

/// The JSON text of the first article in a value: the value itself, one in
/// its list, or one in its graph.
pub open spec fn article_in(text: Seq<char>, depth: nat) -> Option<Seq<char>>
    decreases depth, 0nat,
{
    if depth == 0 {
        None
    } else {
        match json_layer(text) {
            Some(LayerView::List(items)) => article_among(items, (depth - 1) as nat),
            Some(LayerView::Object(fields)) => {
                let kind = value_of(fields, "@type"@);
                if kind is Some && names_article(kind->0) {
                    Some(text)
                } else {
                    match value_of(fields, "@graph"@) {
                        Some(graph) => article_in(graph, (depth - 1) as nat),
                        None => None,
                    }
                }
            },
            _ => None,
        }
    }
}

pub open spec fn article_among(items: Seq<Seq<char>>, depth: nat) -> Option<Seq<char>>
    decreases depth, items.len() + 1,
{
    if items.len() == 0 {
        None
    } else {
        match article_in(items[0], depth) {
            Some(found) => Some(found),
            None => article_among(items.skip(1), depth),
        }
    }
}

fn find_article(text: &str, depth: u32) -> (r: Option<String>)
    ensures
        crate::text::text_opt(r) == article_in(text@, depth as nat),
    decreases depth,
{
    if depth == 0 {
        return None;
    }
    match read_layer(text) {
        Some(JsonLayer::List(items)) => {
            let mut i: usize = 0;
            proof {
                assert(texts(items@).skip(0) =~= texts(items@));
            }
            while i < items.len()
                invariant
                    i <= items.len(),
                    depth > 0,
                    article_in(text@, depth as nat) == article_among(
                        texts(items@).skip(i as int),
                        (depth - 1) as nat,
                    ),
                decreases items.len() - i,
            {
                proof {
                    assert(texts(items@).skip(i as int)[0] == items@[i as int]@);
                    assert(texts(items@).skip(i as int).skip(1) =~= texts(items@).skip(i + 1));
                }
                match find_article(&items[i], depth - 1) {
                    Some(found) => {
                        return Some(found);
                    },
                    None => {},
                }
                i += 1;
            }
            None
        },
        Some(JsonLayer::Object(fields)) => {
            let named: bool = match find_member(&fields, "@type") {
                Some(i) => type_names_article(&fields[i].1),
                None => false,
            };
            if named {
                return Some(text.to_owned());
            }
            match find_member(&fields, "@graph") {
                Some(i) => find_article(&fields[i].1, depth - 1),
                None => None,
            }
        },
        _ => None,
    }
}

/// The JSON text of the article that a JSON-LD text describes.
pub fn json_article(text: &str) -> (r: Option<String>)
    ensures
        crate::text::text_opt(r) == article_in(text@, DEPTH_LIMIT as nat),
{
    find_article(text, DEPTH_LIMIT)
}

/// The longest name that an author is shown with.
pub const AUTHOR_LIMIT: usize = 120;

/// A name with single spaces between its words; neither empty, overlong nor
/// an address.
pub open spec fn author_name(value: Seq<char>) -> Option<Seq<char>> {
    let name = join(words(value), " "@);
    if name.len() > 0 && name.len() <= AUTHOR_LIMIT && !starts_with(name, "http"@) {
        Some(name)
    } else {
        None
    }
}

pub fn clean_author(value: &str) -> (r: Option<String>)
    ensures
        crate::text::text_opt(r) == author_name(value@),
{
    let parts = split_words(&chars_of(value));
    let name = join_parts(&parts, " ");
    if name.len() > 0 && name.len() <= AUTHOR_LIMIT && !starts_with_text(&name, "http") {
        Some(string_of(&name))
    } else {
        None
    }
}

/// The author that a JSON value names: as text, by its `name`, or in a list.
pub open spec fn author_in(text: Seq<char>, depth: nat) -> Option<Seq<char>>
    decreases depth, 0nat,
{
    if depth == 0 {
        None
    } else {
        match json_layer(text) {
            Some(LayerView::List(items)) => author_among(items, (depth - 1) as nat),
            Some(LayerView::Text(value)) => author_name(value),
            Some(LayerView::Object(fields)) => match value_of(fields, "name"@) {
                Some(name) => match text_layer(name) {
                    Some(value) => author_name(value),
                    None => None,
                },
                None => None,
            },
            _ => None,
        }
    }
}

pub open spec fn author_among(items: Seq<Seq<char>>, depth: nat) -> Option<Seq<char>>
    decreases depth, items.len() + 1,
{
    if items.len() == 0 {
        None
    } else {
        match author_in(items[0], depth) {
            Some(found) => Some(found),
            None => author_among(items.skip(1), depth),
        }
    }
}

fn find_author(text: &str, depth: u32) -> (r: Option<String>)
    ensures
        crate::text::text_opt(r) == author_in(text@, depth as nat),
    decreases depth,
{
    if depth == 0 {
        return None;
    }
    match read_layer(text) {
        Some(JsonLayer::List(items)) => {
            let mut i: usize = 0;
            proof {
                assert(texts(items@).skip(0) =~= texts(items@));
            }
            while i < items.len()
                invariant
                    i <= items.len(),
                    depth > 0,
                    author_in(text@, depth as nat) == author_among(
                        texts(items@).skip(i as int),
                        (depth - 1) as nat,
                    ),
                decreases items.len() - i,
            {
                proof {
                    assert(texts(items@).skip(i as int)[0] == items@[i as int]@);
                    assert(texts(items@).skip(i as int).skip(1) =~= texts(items@).skip(i + 1));
                }
                match find_author(&items[i], depth - 1) {
                    Some(found) => {
                        return Some(found);
                    },
                    None => {},
                }
                i += 1;
            }
            None
        },
        Some(JsonLayer::Text(value)) => clean_author(&value),
        Some(JsonLayer::Object(fields)) => match find_member(&fields, "name") {
            Some(i) => match read_layer(&fields[i].1) {
                Some(JsonLayer::Text(value)) => clean_author(&value),
                _ => None,
            },
            None => None,
        },
        _ => None,
    }
}

pub fn json_author_name(text: &str) -> (r: Option<String>)
    ensures
        crate::text::text_opt(r) == author_in(text@, DEPTH_LIMIT as nat),
{
    find_author(text, DEPTH_LIMIT)
}

/// What an article's JSON says of its author and its time.
pub open spec fn article_author(article: Seq<char>) -> Option<Seq<char>> {
    match json_layer(article) {
        Some(layer) => match member(layer, "author"@) {
            Some(author) => author_in(author, DEPTH_LIMIT as nat),
            None => None,
        },
        None => None,
    }
}

pub open spec fn article_date(article: Seq<char>) -> Option<Seq<char>> {
    match json_layer(article) {
        Some(layer) => match member(layer, "datePublished"@) {
            Some(date) => text_layer(date),
            None => None,
        },
        None => None,
    }
}

/// The author and the written date of an article's JSON text.
pub fn article_fields(article: &str) -> (r: (Option<String>, Option<String>))
    ensures
        crate::text::text_opt(r.0) == article_author(article@),
        crate::text::text_opt(r.1) == article_date(article@),
{
    match read_layer(article) {
        Some(JsonLayer::Object(fields)) => {
            let author = match find_member(&fields, "author") {
                Some(i) => json_author_name(&fields[i].1),
                None => None,
            };
            let date = match find_member(&fields, "datePublished") {
                Some(i) => match read_layer(&fields[i].1) {
                    Some(JsonLayer::Text(value)) => Some(value),
                    _ => None,
                },
                None => None,
            };
            (author, date)
        },
        _ => (None, None),
    }
}

/// The article of a script is the first object in it, lists and graphs
/// included, that is typed as an article or a blog posting.
pub proof fn articles_are_told_by_their_type(text: Seq<char>, depth: nat)
    requires
        depth > 0,
    ensures
        json_layer(text) matches Some(LayerView::Object(fields)) ==> {
            let typed = value_of(fields, "@type"@) is Some && names_article(
                value_of(fields, "@type"@)->0,
            );
            &&& typed ==> article_in(text, depth) == Some(text)
            &&& !typed && value_of(fields, "@graph"@) is Some ==> article_in(text, depth)
                == article_in(value_of(fields, "@graph"@)->0, (depth - 1) as nat)
            &&& !typed && value_of(fields, "@graph"@) is None ==> article_in(text, depth) is None
        },
        json_layer(text) matches Some(LayerView::Text(_)) ==> article_in(text, depth) is None,
        json_layer(text) is None ==> article_in(text, depth) is None,
{
}

/// Of the items of a list the first that holds an article, or names an author,
/// counts.
pub proof fn the_first_item_that_says_it_counts(items: Seq<Seq<char>>, depth: nat, i: int)
    requires
        0 <= i < items.len(),
    ensures
        article_in(items[i], depth) is Some && (forall|j: int|
            0 <= j < i ==> article_in(#[trigger] items[j], depth) is None) ==> article_among(
            items,
            depth,
        ) == article_in(items[i], depth),
        author_in(items[i], depth) is Some && (forall|j: int|
            0 <= j < i ==> author_in(#[trigger] items[j], depth) is None) ==> author_among(
            items,
            depth,
        ) == author_in(items[i], depth),
    decreases items.len(),
{
    if i > 0 {
        let rest = items.skip(1);
        assert forall|j: int| 0 <= j < rest.len() implies #[trigger] rest[j] == items[j + 1] by {}
        the_first_item_that_says_it_counts(rest, depth, i - 1);
        assert(rest[i - 1] == items[i]);
    }
}

/// A type is that of an article where it ends in `article` or is a blog
/// posting, in letters of either case; of several types one is enough.
pub proof fn article_types_are_fixed(kind: Seq<char>, text: Seq<char>)
    ensures
        article_type(kind) <==> ends_with(ascii_lower(kind), "article"@) || ascii_lower(kind)
            == "blogposting"@,
        json_layer(text) == Some(LayerView::Text(kind)) ==> (names_article(text) <==> article_type(
            kind,
        )),
        json_layer(text) matches Some(LayerView::List(items)) ==> (names_article(text) <==> exists|
            i: int,
        |
            0 <= i < items.len() && (json_layer(#[trigger] items[i]) matches Some(
                LayerView::Text(one),
            ) && article_type(one))),
{
    if let Some(LayerView::List(items)) = json_layer(text) {
        assert forall|i: int| 0 <= i < items.len() implies (text_layer(
            #[trigger] items[i],
        ) is Some && article_type(text_layer(items[i])->0)) == (json_layer(items[i]) matches Some(
            LayerView::Text(one),
        ) && article_type(one)) by {}
    }
}

/// The name of an author is its words with single blanks between them, at most
/// 120 characters, and no address.
pub proof fn authors_are_names(value: Seq<char>)
    ensures
        ({
            let name = join(words(value), " "@);
            &&& author_name(value) is Some <==> 0 < name.len() <= 120 && !starts_with(
                name,
                "http"@,
            )
            &&& author_name(value) matches Some(found) ==> found == name
        }),
{
}

/// An article says its author and its day of publication under their own
/// names: the author as a name, or as the name of an object.
pub proof fn articles_say_author_and_day(article: Seq<char>, fields: Seq<(Seq<char>, Seq<char>)>)
    requires
        json_layer(article) == Some(LayerView::Object(fields)),
    ensures
        value_of(fields, "author"@) is None ==> article_author(article) is None,
        value_of(fields, "author"@) matches Some(author) ==> {
            &&& json_layer(author) matches Some(LayerView::Text(value)) ==> article_author(article)
                == author_name(value)
            &&& json_layer(author) matches Some(LayerView::Object(parts)) ==> (value_of(
                parts,
                "name"@,
            ) matches Some(name) ==> (json_layer(name) matches Some(LayerView::Text(value))
                ==> article_author(article) == author_name(value)))
        },
        value_of(fields, "datePublished"@) is None ==> article_date(article) is None,
        value_of(fields, "datePublished"@) matches Some(date) ==> (json_layer(date) matches Some(
            LayerView::Text(value),
        ) ==> article_date(article) == Some(value)),
{
}

/// A type is written as a text or as a list of texts; nothing else names one.
pub proof fn types_are_texts(text: Seq<char>)
    ensures
        names_article(text) ==> (json_layer(text) matches Some(LayerView::Text(_))) || (json_layer(
            text,
        ) matches Some(LayerView::List(_))),
{
}

} // verus!
