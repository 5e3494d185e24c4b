//! Author and time of publication, as an article page gives them.

use vstd::prelude::*;

use crate::address::{parse_url, url_parsed, UrlView};
use crate::calendar::{
    date_midnight, date_read, midnight, parse_published_value, published_time, read_date,
};
use crate::json::{
    article_author, article_date, article_fields, article_in, author_name, clean_author,
    json_article, DEPTH_LIMIT,
};
use crate::markup::{
    attribute, html_selected, node_views, select, Ancestor, AncestorView, HtmlNode, NodeView,
};
use crate::number::{natural_up_to, parse_i32, parse_natural, parsed_i32};
use crate::text::{
    ascii_lower, chars_of, contains, contains_text, copy_range, same_text, split, split_at_char,
    string_of, text_opt, to_ascii_lower, views,
};

verus! {

/// A class or id of the parts of a page that are not its article.
pub open spec fn side_token(token: Seq<char>) -> bool {
    let lower = ascii_lower(token);
    contains(lower, "comment"@) || contains(lower, "reply"@) || lower == "related-posts"@
}

pub open spec fn side_element(a: AncestorView) -> bool {
    ||| exists|i: int| 0 <= i < a.classes.len() && side_token(#[trigger] a.classes[i])
    ||| a.id is Some && side_token(a.id->0)
}

/// The node does not belong to a comment, a reply or a list of other articles.
pub open spec fn of_article(node: NodeView) -> bool {
    forall|i: int| 0 <= i < node.ancestors.len() ==> !side_element(#[trigger] node.ancestors[i])
}

fn is_side_token(token: &str) -> (r: bool)
    ensures
        r == side_token(token@),
{
    let lower = to_ascii_lower(&chars_of(token));
    contains_text(&lower, "comment") || contains_text(&lower, "reply") || same_text(
        &string_of(&lower),
        "related-posts",
    )
}

fn is_side_element(a: &Ancestor) -> (r: bool)
    ensures
        r == side_element(a@),
{
    let mut i: usize = 0;
    while i < a.classes.len()
        invariant
            i <= a.classes.len(),
            forall|k: int| 0 <= k < i ==> !side_token(#[trigger] a@.classes[k]),
        decreases a.classes.len() - i,
    {
        if is_side_token(&a.classes[i]) {
            proof {
                assert(side_token(a@.classes[i as int]));
            }
            return true;
        }
        i += 1;
    }
    match &a.id {
        Some(id) => is_side_token(id),
        None => false,
    }
}

pub fn is_article_metadata(node: &HtmlNode) -> (r: bool)
    ensures
        r == of_article(node@),
{
    let mut i: usize = 0;
    while i < node.ancestors.len()
        invariant
            i <= node.ancestors.len(),
            forall|k: int| 0 <= k < i ==> !side_element(#[trigger] node@.ancestors[k]),
        decreases node.ancestors.len() - i,
    {
        if is_side_element(&node.ancestors[i]) {
            proof {
                assert(side_element(node@.ancestors[i as int]));
            }
            return false;
        }
        i += 1;
    }
    true
}

/// What a metadata element says: in an attribute, or else in its text.
pub open spec fn stated(node: NodeView) -> Seq<char> {
    if attribute(node, "content"@) is Some {
        attribute(node, "content"@)->0
    } else if attribute(node, "datetime"@) is Some {
        attribute(node, "datetime"@)->0
    } else if attribute(node, "title"@) is Some {
        attribute(node, "title"@)->0
    } else {
        node.text
    }
}

pub fn metadata_value(node: &HtmlNode) -> (r: String)
    ensures
        r@ == stated(node@),
{
    match node.attr("content") {
        Some(value) => value.clone(),
        None => match node.attr("datetime") {
            Some(value) => value.clone(),
            None => match node.attr("title") {
                Some(value) => value.clone(),
                None => node.text.clone(),
            },
        },
    }
}

/// The first time that one of the nodes states.
pub open spec fn first_time(nodes: Seq<NodeView>) -> Option<i64>
    decreases nodes.len(),
{
    if nodes.len() == 0 {
        None
    } else if of_article(nodes[0]) && published_time(stated(nodes[0])) is Some {
        published_time(stated(nodes[0]))
    } else {
        first_time(nodes.skip(1))
    }
}

/// The first author that one of the nodes states.
pub open spec fn first_author(nodes: Seq<NodeView>) -> Option<Seq<char>>
    decreases nodes.len(),
{
    if nodes.len() == 0 {
        None
    } else if of_article(nodes[0]) && author_name(stated(nodes[0])) is Some {
        author_name(stated(nodes[0]))
    } else {
        first_author(nodes.skip(1))
    }
}

pub fn find_time(nodes: &[HtmlNode]) -> (r: Option<i64>)
    ensures
        r == first_time(node_views(nodes@)),
{
    let ghost all = node_views(nodes@);
    let mut i: usize = 0;
    proof {
        assert(all.skip(0) =~= all);
    }
    while i < nodes.len()
        invariant
            i <= nodes.len(),
            all == node_views(nodes@),
            first_time(all) == first_time(all.skip(i as int)),
        decreases nodes.len() - i,
    {
        proof {
            assert(all.skip(i as int)[0] == nodes@[i as int]@);
            assert(all.skip(i as int).skip(1) =~= all.skip(i + 1));
        }
        if is_article_metadata(&nodes[i]) {
            match parse_published_value(&metadata_value(&nodes[i])) {
                Some(time) => {
                    return Some(time);
                },
                None => {},
            }
        }
        i += 1;
    }
    None
}

pub fn find_author(nodes: &[HtmlNode]) -> (r: Option<String>)
    ensures
        text_opt(r) == first_author(node_views(nodes@)),
{
    let ghost all = node_views(nodes@);
    let mut i: usize = 0;
    proof {
        assert(all.skip(0) =~= all);
    }
    while i < nodes.len()
        invariant
            i <= nodes.len(),
            all == node_views(nodes@),
            first_author(all) == first_author(all.skip(i as int)),
        decreases nodes.len() - i,
    {
        proof {
            assert(all.skip(i as int)[0] == nodes@[i as int]@);
            assert(all.skip(i as int).skip(1) =~= all.skip(i + 1));
        }
        if is_article_metadata(&nodes[i]) {
            match clean_author(&metadata_value(&nodes[i])) {
                Some(name) => {
                    return Some(name);
                },
                None => {},
            }
        }
        i += 1;
    }
    None
}

/// What the JSON-LD scripts say together: of several, the first that says it.
pub open spec fn scripts_say(nodes: Seq<NodeView>) -> (Option<Seq<char>>, Option<i64>)
    decreases nodes.len(),
{
    if nodes.len() == 0 {
        (None, None)
    } else {
        let (author, date) = scripts_say(nodes.drop_last());
        match article_in(nodes.last().inner_html, DEPTH_LIMIT as nat) {
            Some(article) => (
                if author is Some {
                    author
                } else {
                    article_author(article)
                },
                if date is Some {
                    date
                } else {
                    match article_date(article) {
                        Some(text) => published_time(text),
                        None => None,
                    }
                },
            ),
            None => (author, date),
        }
    }
}

pub fn read_scripts(nodes: &[HtmlNode]) -> (r: (Option<String>, Option<i64>))
    ensures
        (text_opt(r.0), r.1) == scripts_say(node_views(nodes@)),
{
    let ghost all = node_views(nodes@);
    let mut author: Option<String> = None;
    let mut date: Option<i64> = None;
    let mut i: usize = 0;
    while i < nodes.len()
        invariant
            i <= nodes.len(),
            all == node_views(nodes@),
            (text_opt(author), date) == scripts_say(all.take(i as int)),
        decreases nodes.len() - i,
    {
        proof {
            assert(all.take(i + 1).drop_last() =~= all.take(i as int));
            assert(all.take(i + 1).last() == nodes@[i as int]@);
        }
        match json_article(&nodes[i].inner_html) {
            Some(article) => {
                let (found_author, found_date) = article_fields(&article);
                if author.is_none() {
                    author = found_author;
                }
                if date.is_none() {
                    date = match found_date {
                        Some(text) => parse_published_value(&text),
                        None => None,
                    };
                }
            },
            None => {},
        }
        i += 1;
    }
    proof {
        assert(all.take(all.len() as int) =~= all);
    }
    (author, date)
}

/// Where pages state their time, the most telling places first.
pub open spec fn page_time(html: Seq<char>) -> Option<i64> {
    let meta = first_time(
        html_selected(html, "meta[property='article:published_time'], meta[name='date']"@),
    );
    let item = first_time(html_selected(html, "[itemprop~='datePublished']"@));
    let class = first_time(
        html_selected(
            html,
            "abbr.published, .dt-published, time.published, .published[datetime], .published[title]"@,
        ),
    );
    let time = first_time(
        html_selected(html, "time[datetime]:not(.updated):not([itemprop~='dateModified'])"@),
    );
    if meta is Some {
        meta
    } else if item is Some {
        item
    } else if class is Some {
        class
    } else {
        time
    }
}

/// Where pages state their author, the most telling places first.
pub open spec fn page_author(html: Seq<char>) -> Option<Seq<char>> {
    let meta = first_author(html_selected(html, "meta[name='author']"@));
    let name = first_author(
        html_selected(html, "[itemprop~='author'] [itemprop~='name'], .author .fn"@),
    );
    let link = first_author(
        html_selected(html, "[rel~='author'], .p-author, [itemprop~='author']"@),
    );
    if meta is Some {
        meta
    } else if name is Some {
        name
    } else {
        link
    }
}

fn read_page_time(html: &str) -> (r: Option<i64>)
    ensures
        r == page_time(html@),
{
    let meta = find_time(
        &select(html, "meta[property='article:published_time'], meta[name='date']"),
    );
    if meta.is_some() {
        return meta;
    }
    let item = find_time(&select(html, "[itemprop~='datePublished']"));
    if item.is_some() {
        return item;
    }
    let class = find_time(
        &select(
            html,
            "abbr.published, .dt-published, time.published, .published[datetime], .published[title]",
        ),
    );
    if class.is_some() {
        return class;
    }
    find_time(&select(html, "time[datetime]:not(.updated):not([itemprop~='dateModified'])"))
}

fn read_page_author(html: &str) -> (r: Option<String>)
    ensures
        text_opt(r) == page_author(html@),
{
    let meta = find_author(&select(html, "meta[name='author']"));
    if meta.is_some() {
        return meta;
    }
    let name = find_author(
        &select(html, "[itemprop~='author'] [itemprop~='name'], .author .fn"),
    );
    if name.is_some() {
        return name;
    }
    find_author(&select(html, "[rel~='author'], .p-author, [itemprop~='author']"))
}

/// What a page says of its author and its time: in its elements before its
/// scripts.
pub open spec fn page_metadata(html: Seq<char>) -> (Option<Seq<char>>, Option<i64>) {
    let (author, date) = scripts_say(
        html_selected(html, "script[type='application/ld+json']"@),
    );
    (
        if page_author(html) is Some {
            page_author(html)
        } else {
            author
        },
        if page_time(html) is Some {
            page_time(html)
        } else {
            date
        },
    )
}

pub fn extract_metadata(html: &str) -> (r: (Option<String>, Option<i64>))
    ensures
        (text_opt(r.0), r.1) == page_metadata(html@),
{
    let published = read_page_time(html);
    let author = read_page_author(html);
    let (json_author, json_date) = read_scripts(
        &select(html, "script[type='application/ld+json']"),
    );
    (
        if author.is_some() { author } else { json_author },
        if published.is_some() { published } else { json_date },
    )
}

// ---- dates in addresses -----------------------------------------------------

/// The parts of a path between slashes that are not empty.
pub open spec fn segments(path: Seq<char>) -> Option<Seq<Seq<char>>> {
    if path.len() > 0 && path[0] == '/' {
        Some(split(path.skip(1), '/').filter(|part: Seq<char>| part.len() > 0))
    } else {
        None
    }
}

/// The first part that writes a date in eight digits.
pub open spec fn compact_date(parts: Seq<Seq<char>>) -> Option<i64>
    decreases parts.len(),
{
    if parts.len() == 0 {
        None
    } else if vstd::utf8::encode_utf8(parts[0]).len() == 8 && date_read(
        parts[0],
        "%Y%m%d"@,
    ) is Some {
        date_read(parts[0], "%Y%m%d"@)
    } else {
        compact_date(parts.skip(1))
    }
}

/// The date that three parts in a row write as year, month and day.
pub open spec fn split_date(year: Seq<char>, month: Seq<char>, day: Seq<char>) -> Option<i64> {
    match (parsed_i32(year), natural_up_to(month, u32::MAX as int), natural_up_to(day, u32::MAX as int)) {
        (Some(y), Some(m), Some(d)) => date_midnight(y, m as u32, d as u32),
        _ => None,
    }
}

pub open spec fn segmented_date(parts: Seq<Seq<char>>) -> Option<i64>
    decreases parts.len(),
{
    if parts.len() < 3 {
        None
    } else if split_date(parts[0], parts[1], parts[2]) is Some {
        split_date(parts[0], parts[1], parts[2])
    } else {
        segmented_date(parts.skip(1))
    }
}

/// The day that an address names, given how it is read. A month alone is no day.
pub open spec fn address_date(url: Option<UrlView>) -> Option<i64> {
    match url {
        Some(parts) => match segments(parts.path) {
            Some(all) => if compact_date(all) is Some {
                compact_date(all)
            } else {
                segmented_date(all)
            },
            None => None,
        },
        None => None,
    }
}

fn path_segments(path: &str) -> (r: Option<Vec<Vec<char>>>)
    ensures
        match r {
            Some(parts) => segments(path@) == Some(views(parts@)),
            None => segments(path@) is None,
        },
{
    let chars = chars_of(path);
    if chars.len() == 0 || chars[0] != '/' {
        return None;
    }
    let inner = copy_range(&chars, 1, chars.len());
    proof {
        assert(inner@ =~= path@.skip(1));
    }
    let all = split_at_char(&inner, '/');
    let ghost keep = |part: Seq<char>| part.len() > 0;
    let mut parts: Vec<Vec<char>> = Vec::new();
    let mut i: usize = 0;
    proof {
        reveal(Seq::filter);
        assert(views(all@).take(0).filter(keep) =~= views(parts@));
    }
    while i < all.len()
        invariant
            i <= all.len(),
            keep == (|part: Seq<char>| part.len() > 0),
            views(parts@) == views(all@).take(i as int).filter(keep),
        decreases all.len() - i,
    {
        proof {
            reveal(Seq::filter);
            assert(views(all@).take(i + 1).drop_last() =~= views(all@).take(i as int));
            assert(views(all@).take(i + 1).last() == all@[i as int]@);
        }
        if all[i].len() > 0 {
            let part = copy_range(&all[i], 0, all[i].len());
            proof {
                assert(part@ =~= all@[i as int]@);
                assert(views(parts@.push(part)) =~= views(parts@).push(part@));
            }
            parts.push(part);
        }
        i += 1;
    }
    proof {
        assert(views(all@).take(all@.len() as int) =~= views(all@));
    }
    Some(parts)
}

fn find_compact_date(parts: &[Vec<char>]) -> (r: Option<i64>)
    ensures
        r == compact_date(views(parts@)),
{
    let ghost all = views(parts@);
    let mut i: usize = 0;
    proof {
        assert(all.skip(0) =~= all);
    }
    while i < parts.len()
        invariant
            i <= parts.len(),
            all == views(parts@),
            compact_date(all) == compact_date(all.skip(i as int)),
        decreases parts.len() - i,
    {
        proof {
            assert(all.skip(i as int)[0] == parts@[i as int]@);
            assert(all.skip(i as int).skip(1) =~= all.skip(i + 1));
        }
        let text = string_of(&parts[i]);
        if text.as_str().as_bytes().len() == 8 {
            match read_date(&text, "%Y%m%d") {
                Some(time) => {
                    return Some(time);
                },
                None => {},
            }
        }
        i += 1;
    }
    None
}

fn find_segmented_date(parts: &[Vec<char>]) -> (r: Option<i64>)
    ensures
        r == segmented_date(views(parts@)),
{
    let ghost all = views(parts@);
    let mut i: usize = 0;
    proof {
        assert(all.skip(0) =~= all);
    }
    while parts.len() - i >= 3
        invariant
            i <= parts.len(),
            all == views(parts@),
            segmented_date(all) == segmented_date(all.skip(i as int)),
        decreases parts.len() - i,
    {
        proof {
            let rest = all.skip(i as int);
            assert(rest[0] == parts@[i as int]@);
            assert(rest[1] == parts@[i + 1]@);
            assert(rest[2] == parts@[i + 2]@);
            assert(rest.skip(1) =~= all.skip(i + 1));
        }
        let year = parse_i32(&string_of(&parts[i]));
        let month = parse_natural(&parts[i + 1], u32::MAX);
        let day = parse_natural(&parts[i + 2], u32::MAX);
        match (year, month, day) {
            (Some(y), Some(m), Some(d)) => match midnight(y, m, d) {
                Some(time) => {
                    return Some(time);
                },
                None => {},
            },
            _ => {},
        }
        i += 1;
    }
    None
}

/// The day that the path of an address names.
pub fn path_date(path: &str) -> (r: Option<i64>)
    ensures
        r == (match segments(path@) {
            Some(all) => if compact_date(all) is Some {
                compact_date(all)
            } else {
                segmented_date(all)
            },
            None => None,
        }),
{
    match path_segments(path) {
        None => None,
        Some(parts) => match find_compact_date(&parts) {
            Some(time) => Some(time),
            None => find_segmented_date(&parts),
        },
    }
}

pub fn date_from_url(raw: &str) -> (r: Option<i64>)
    ensures
        r == address_date(url_parsed(raw@)),
{
    match parse_url(raw) {
        Some(parts) => path_date(&parts.path),
        None => None,
    }
}

// ---- what wins -----------------------------------------------------------------

/// The node belongs to the article, and a time can be read from what it says.
pub open spec fn tells_time(node: NodeView) -> bool {
    of_article(node) && published_time(stated(node)) is Some
}

/// The node belongs to the article, and what it says is the name of an author.
pub open spec fn tells_author(node: NodeView) -> bool {
    of_article(node) && author_name(stated(node)) is Some
}

proof fn lemma_first_time(nodes: Seq<NodeView>)
    ensures
        forall|i: int|
            0 <= i < nodes.len() && tells_time(#[trigger] nodes[i]) && (forall|j: int|
                0 <= j < i ==> !tells_time(#[trigger] nodes[j])) ==> first_time(nodes)
                == published_time(stated(nodes[i])),
        (forall|j: int| 0 <= j < nodes.len() ==> !tells_time(#[trigger] nodes[j])) ==> first_time(
            nodes,
        ) is None,
        first_time(nodes) is Some ==> exists|i: int|
            0 <= i < nodes.len() && tells_time(#[trigger] nodes[i]) && first_time(nodes)
                == published_time(stated(nodes[i])),
    decreases nodes.len(),
{
    if nodes.len() > 0 {
        let rest = nodes.skip(1);
        lemma_first_time(rest);
        assert forall|j: int| 0 <= j < rest.len() implies #[trigger] rest[j] == nodes[j + 1] by {}
        assert forall|i: int|
            0 <= i < nodes.len() && tells_time(#[trigger] nodes[i]) && (forall|j: int|
                0 <= j < i ==> !tells_time(#[trigger] nodes[j])) implies first_time(nodes)
            == published_time(stated(nodes[i])) by {
            if i > 0 {
                assert(!tells_time(nodes[0]));
                assert(rest[i - 1] == nodes[i]);
                assert forall|j: int| 0 <= j < i - 1 implies !tells_time(#[trigger] rest[j]) by {
                    assert(!tells_time(nodes[j + 1]));
                }
            }
        }
        if !tells_time(nodes[0]) {
            if first_time(rest) is Some {
                let i = choose|i: int|
                    0 <= i < rest.len() && tells_time(#[trigger] rest[i]) && first_time(rest)
                        == published_time(stated(rest[i]));
                assert(nodes[i + 1] == rest[i]);
            }
        } else {
            assert(first_time(nodes) == published_time(stated(nodes[0])));
        }
    }
}

proof fn lemma_first_author(nodes: Seq<NodeView>)
    ensures
        forall|i: int|
            0 <= i < nodes.len() && tells_author(#[trigger] nodes[i]) && (forall|j: int|
                0 <= j < i ==> !tells_author(#[trigger] nodes[j])) ==> first_author(nodes)
                == author_name(stated(nodes[i])),
        (forall|j: int| 0 <= j < nodes.len() ==> !tells_author(#[trigger] nodes[j]))
            ==> first_author(nodes) is None,
    decreases nodes.len(),
{
    if nodes.len() > 0 {
        let rest = nodes.skip(1);
        lemma_first_author(rest);
        assert forall|j: int| 0 <= j < rest.len() implies #[trigger] rest[j] == nodes[j + 1] by {}
        assert forall|i: int|
            0 <= i < nodes.len() && tells_author(#[trigger] nodes[i]) && (forall|j: int|
                0 <= j < i ==> !tells_author(#[trigger] nodes[j])) implies first_author(nodes)
            == author_name(stated(nodes[i])) by {
            if i > 0 {
                assert(!tells_author(nodes[0]));
                assert(rest[i - 1] == nodes[i]);
                assert forall|j: int| 0 <= j < i - 1 implies !tells_author(
                    #[trigger] rest[j],
                ) by {
                    assert(!tells_author(nodes[j + 1]));
                }
            }
        }
    }
}

/// The time of publication is what the first telling one of the page's
/// elements for it says, whatever other elements and the scripts say: the
/// elements are `meta` elements for the time of publication or the date.
pub proof fn the_stated_publication_time_wins(html: Seq<char>, i: int)
    requires
        ({
            let metas = html_selected(
                html,
                "meta[property='article:published_time'], meta[name='date']"@,
            );
            0 <= i < metas.len() && tells_time(metas[i]) && forall|j: int|
                0 <= j < i ==> !tells_time(#[trigger] metas[j])
        }),
    ensures
        page_metadata(html).1 == published_time(
            stated(
                html_selected(
                    html,
                    "meta[property='article:published_time'], meta[name='date']"@,
                )[i],
            ),
        ),
        page_metadata(html).1 is Some,
{
    lemma_first_time(
        html_selected(html, "meta[property='article:published_time'], meta[name='date']"@),
    );
}

/// Without such an element the time stands where the page marks up its date of
/// publication, then where it is classed as published, then in an element for
/// a time that is not marked as a change, and at last in the scripts.
pub proof fn publication_times_are_sought_in_order(html: Seq<char>)
    ensures
        ({
            let metas = html_selected(
                html,
                "meta[property='article:published_time'], meta[name='date']"@,
            );
            let items = html_selected(html, "[itemprop~='datePublished']"@);
            let classed = html_selected(
                html,
                "abbr.published, .dt-published, time.published, .published[datetime], .published[title]"@,
            );
            let times = html_selected(
                html,
                "time[datetime]:not(.updated):not([itemprop~='dateModified'])"@,
            );
            let scripts = html_selected(html, "script[type='application/ld+json']"@);
            let found = page_metadata(html).1;
            let none_of = |nodes: Seq<NodeView>|
                forall|j: int| 0 <= j < nodes.len() ==> !tells_time(#[trigger] nodes[j]);
            let first_of = |nodes: Seq<NodeView>, i: int|
                0 <= i < nodes.len() && tells_time(nodes[i]) && forall|j: int|
                    0 <= j < i ==> !tells_time(#[trigger] nodes[j]);
            &&& forall|i: int|
                none_of(metas) && #[trigger] first_of(items, i) ==> found == published_time(
                    stated(items[i]),
                )
            &&& forall|i: int|
                none_of(metas) && none_of(items) && #[trigger] first_of(classed, i) ==> found
                    == published_time(stated(classed[i]))
            &&& forall|i: int|
                none_of(metas) && none_of(items) && none_of(classed) && #[trigger] first_of(
                    times,
                    i,
                ) ==> found == published_time(stated(times[i]))
            &&& none_of(metas) && none_of(items) && none_of(classed) && none_of(times) ==> found
                == scripts_say(scripts).1
        }),
{
    lemma_first_time(
        html_selected(html, "meta[property='article:published_time'], meta[name='date']"@),
    );
    lemma_first_time(html_selected(html, "[itemprop~='datePublished']"@));
    lemma_first_time(
        html_selected(
            html,
            "abbr.published, .dt-published, time.published, .published[datetime], .published[title]"@,
        ),
    );
    lemma_first_time(
        html_selected(html, "time[datetime]:not(.updated):not([itemprop~='dateModified'])"@),
    );
}

/// A time comes from nowhere else: no other element, one for the time of the
/// last change among them, ever is its source.
pub proof fn publication_times_come_from_their_elements(html: Seq<char>, time: i64)
    requires
        page_metadata(html).1 == Some(time),
    ensures
        ({
            let told_by = |nodes: Seq<NodeView>|
                exists|i: int|
                    0 <= i < nodes.len() && of_article(#[trigger] nodes[i]) && published_time(
                        stated(nodes[i]),
                    ) == Some(time);
            told_by(
                html_selected(html, "meta[property='article:published_time'], meta[name='date']"@),
            ) || told_by(html_selected(html, "[itemprop~='datePublished']"@)) || told_by(
                html_selected(
                    html,
                    "abbr.published, .dt-published, time.published, .published[datetime], .published[title]"@,
                ),
            ) || told_by(
                html_selected(html, "time[datetime]:not(.updated):not([itemprop~='dateModified'])"@),
            ) || scripts_say(html_selected(html, "script[type='application/ld+json']"@)).1 == Some(
                time,
            )
        }),
{
    let metas = html_selected(
        html,
        "meta[property='article:published_time'], meta[name='date']"@,
    );
    let items = html_selected(html, "[itemprop~='datePublished']"@);
    let classed = html_selected(
        html,
        "abbr.published, .dt-published, time.published, .published[datetime], .published[title]"@,
    );
    let times = html_selected(
        html,
        "time[datetime]:not(.updated):not([itemprop~='dateModified'])"@,
    );
    lemma_first_time(metas);
    lemma_first_time(items);
    lemma_first_time(classed);
    lemma_first_time(times);
}

/// The author is what the first telling `meta` element for the author says,
/// then a name marked up inside an author, then an element that is marked up
/// or linked as the author, and at last what the scripts say.
pub proof fn authors_are_sought_in_order(html: Seq<char>)
    ensures
        ({
            let metas = html_selected(html, "meta[name='author']"@);
            let names = html_selected(
                html,
                "[itemprop~='author'] [itemprop~='name'], .author .fn"@,
            );
            let links = html_selected(html, "[rel~='author'], .p-author, [itemprop~='author']"@);
            let scripts = html_selected(html, "script[type='application/ld+json']"@);
            let found = page_metadata(html).0;
            let none_of = |nodes: Seq<NodeView>|
                forall|j: int| 0 <= j < nodes.len() ==> !tells_author(#[trigger] nodes[j]);
            let first_of = |nodes: Seq<NodeView>, i: int|
                0 <= i < nodes.len() && tells_author(nodes[i]) && forall|j: int|
                    0 <= j < i ==> !tells_author(#[trigger] nodes[j]);
            &&& forall|i: int| #[trigger]
                first_of(metas, i) ==> found == author_name(stated(metas[i]))
            &&& forall|i: int|
                none_of(metas) && #[trigger] first_of(names, i) ==> found == author_name(
                    stated(names[i]),
                )
            &&& forall|i: int|
                none_of(metas) && none_of(names) && #[trigger] first_of(links, i) ==> found
                    == author_name(stated(links[i]))
            &&& none_of(metas) && none_of(names) && none_of(links) ==> found == scripts_say(
                scripts,
            ).0
        }),
{
    lemma_first_author(html_selected(html, "meta[name='author']"@));
    lemma_first_author(
        html_selected(html, "[itemprop~='author'] [itemprop~='name'], .author .fn"@),
    );
    lemma_first_author(
        html_selected(html, "[rel~='author'], .p-author, [itemprop~='author']"@),
    );
}

/// What stands inside comments, replies or the list of related posts is not
/// said of the article; everything else is.
pub proof fn comments_say_nothing_of_the_article(node: NodeView)
    ensures
        of_article(node) <==> forall|i: int|
            0 <= i < node.ancestors.len() ==> {
                let a = #[trigger] node.ancestors[i];
                &&& forall|k: int|
                    0 <= k < a.classes.len() ==> !contains(
                        ascii_lower(#[trigger] a.classes[k]),
                        "comment"@,
                    ) && !contains(ascii_lower(a.classes[k]), "reply"@) && ascii_lower(
                        a.classes[k],
                    ) != "related-posts"@
                &&& a.id matches Some(id) ==> !contains(ascii_lower(id), "comment"@) && !contains(
                    ascii_lower(id),
                    "reply"@,
                ) && ascii_lower(id) != "related-posts"@
            },
{
    assert forall|i: int| 0 <= i < node.ancestors.len() implies !side_element(
        #[trigger] node.ancestors[i],
    ) == {
        let a = node.ancestors[i];
        &&& forall|k: int|
            0 <= k < a.classes.len() ==> !contains(
                ascii_lower(#[trigger] a.classes[k]),
                "comment"@,
            ) && !contains(ascii_lower(a.classes[k]), "reply"@) && ascii_lower(a.classes[k])
                != "related-posts"@
        &&& a.id matches Some(id) ==> !contains(ascii_lower(id), "comment"@) && !contains(
            ascii_lower(id),
            "reply"@,
        ) && ascii_lower(id) != "related-posts"@
    } by {
        let a = node.ancestors[i];
        assert forall|k: int| 0 <= k < a.classes.len() implies side_token(
            #[trigger] a.classes[k],
        ) == (contains(ascii_lower(a.classes[k]), "comment"@) || contains(
            ascii_lower(a.classes[k]),
            "reply"@,
        ) || ascii_lower(a.classes[k]) == "related-posts"@) by {}
    }
}

/// An element says what its content attribute holds; without one, what its
/// time attribute holds, then its title attribute, and then its text.
pub proof fn attributes_speak_before_text(node: NodeView)
    ensures
        attribute(node, "content"@) matches Some(value) ==> stated(node) == value,
        attribute(node, "content"@) is None ==> (attribute(node, "datetime"@) matches Some(value)
            ==> stated(node) == value),
        attribute(node, "content"@) is None && attribute(node, "datetime"@) is None ==> (attribute(
            node,
            "title"@,
        ) matches Some(value) ==> stated(node) == value),
        attribute(node, "content"@) is None && attribute(node, "datetime"@) is None && attribute(
            node,
            "title"@,
        ) is None ==> stated(node) == node.text,
{
}

/// Of several scripts the first one that names an author gives the author, and
/// the first one that gives a time that can be read gives the time.
pub proof fn the_first_script_that_says_it_counts(nodes: Seq<NodeView>, i: int)
    requires
        0 <= i < nodes.len(),
        article_in(nodes[i].inner_html, 128) is Some,
    ensures
        article_author(article_in(nodes[i].inner_html, 128)->0) is Some && (forall|j: int|
            0 <= j < i ==> !(article_in((#[trigger] nodes[j]).inner_html, 128) matches Some(article)
                && article_author(article) is Some)) ==> scripts_say(nodes).0 == article_author(
            article_in(nodes[i].inner_html, 128)->0,
        ),
        (article_date(article_in(nodes[i].inner_html, 128)->0) matches Some(text)
            && published_time(text) is Some) && (forall|j: int|
            0 <= j < i ==> !(article_in((#[trigger] nodes[j]).inner_html, 128) matches Some(article)
                && (article_date(article) matches Some(text) && published_time(text) is Some)))
            ==> scripts_say(nodes).1 == published_time(
            article_date(article_in(nodes[i].inner_html, 128)->0)->0,
        ),
    decreases nodes.len(),
{
    let rest = nodes.drop_last();
    assert forall|j: int| 0 <= j < rest.len() implies #[trigger] rest[j] == nodes[j] by {}
    if i < rest.len() {
        assert(rest[i] == nodes[i]);
        the_first_script_that_says_it_counts(rest, i);
    } else {
        lemma_silent_scripts(rest);
    }
}

proof fn lemma_silent_scripts(nodes: Seq<NodeView>)
    ensures
        (forall|j: int|
            0 <= j < nodes.len() ==> !(article_in(
                (#[trigger] nodes[j]).inner_html,
                128,
            ) matches Some(article) && article_author(article) is Some)) ==> scripts_say(
            nodes,
        ).0 is None,
        (forall|j: int|
            0 <= j < nodes.len() ==> !(article_in(
                (#[trigger] nodes[j]).inner_html,
                128,
            ) matches Some(article) && (article_date(article) matches Some(text) && published_time(
                text,
            ) is Some))) ==> scripts_say(nodes).1 is None,
    decreases nodes.len(),
{
    if nodes.len() > 0 {
        let rest = nodes.drop_last();
        lemma_silent_scripts(rest);
        assert forall|j: int| 0 <= j < rest.len() implies #[trigger] rest[j] == nodes[j] by {}
        assert(nodes[nodes.len() - 1] == nodes.last());
    }
}

/// An address is dated by the first part of its path that is a date in eight
/// digits; without one, by the first three parts in a row that are a year, a
/// month and a day.
pub proof fn addresses_are_dated_by_their_path(parts: Seq<Seq<char>>, i: int)
    requires
        0 <= i < parts.len(),
    ensures
        vstd::utf8::encode_utf8(parts[i]).len() == 8 && date_read(parts[i], "%Y%m%d"@) is Some && (
        forall|j: int|
            0 <= j < i ==> !(vstd::utf8::encode_utf8(#[trigger] parts[j]).len() == 8 && date_read(
                parts[j],
                "%Y%m%d"@,
            ) is Some)) ==> compact_date(parts) == date_read(parts[i], "%Y%m%d"@),
        i + 2 < parts.len() && split_date(parts[i], parts[i + 1], parts[i + 2]) is Some && (forall|
            j: int,
        |
            0 <= j < i ==> split_date(#[trigger] parts[j], parts[j + 1], parts[j + 2]) is None)
            ==> segmented_date(parts) == split_date(parts[i], parts[i + 1], parts[i + 2]),
    decreases parts.len(),
{
    if i > 0 {
        let rest = parts.skip(1);
        assert forall|j: int| 0 <= j < rest.len() implies #[trigger] rest[j] == parts[j + 1] by {}
        addresses_are_dated_by_their_path(rest, i - 1);
        assert(rest[i - 1] == parts[i]);
        if i + 2 < parts.len() {
            assert(rest[i] == parts[i + 1] && rest[i + 1] == parts[i + 2]);
            if forall|j: int|
                0 <= j < i ==> split_date(
                    #[trigger] parts[j],
                    parts[j + 1],
                    parts[j + 2],
                ) is None {
                assert(split_date(parts[0], parts[1], parts[2]) is None);
                assert forall|j: int| 0 <= j < i - 1 implies split_date(
                    #[trigger] rest[j],
                    rest[j + 1],
                    rest[j + 2],
                ) is None by {
                    assert(split_date(parts[j + 1], parts[j + 2], parts[j + 3]) is None);
                }
            }
        }
    }
}

/// A day is read as a year, a month and a day in this order.
pub proof fn three_parts_are_year_month_and_day(year: Seq<char>, month: Seq<char>, day: Seq<char>)
    ensures
        split_date(year, month, day) is Some <==> parsed_i32(year) is Some && natural_up_to(
            month,
            4_294_967_295,
        ) is Some && natural_up_to(day, 4_294_967_295) is Some && date_midnight(
            parsed_i32(year)->0,
            natural_up_to(month, 4_294_967_295)->0 as u32,
            natural_up_to(day, 4_294_967_295)->0 as u32,
        ) is Some,
        split_date(year, month, day) is Some ==> split_date(year, month, day) == date_midnight(
            parsed_i32(year)->0,
            natural_up_to(month, 4_294_967_295)->0 as u32,
            natural_up_to(day, 4_294_967_295)->0 as u32,
        ),
{
}

/// A path is cut at its slashes, and empty parts do not count; one that does
/// not begin with a slash has no parts.
pub proof fn paths_are_cut_at_their_slashes(path: Seq<char>)
    ensures
        path.len() > 0 && path[0] == '/' ==> segments(path) == Some(
            split(path.skip(1), '/').filter(|part: Seq<char>| part.len() > 0),
        ),
        path.len() == 0 || path[0] != '/' ==> segments(path) is None,
{
}

/// The day in eight digits goes before the day in three parts; an address
/// without either, or one that cannot be read, has no day.
pub proof fn addresses_have_one_day(url: UrlView)
    ensures
        address_date(None) is None,
        segments(url.path) is None ==> address_date(Some(url)) is None,
        segments(url.path) matches Some(all) ==> {
            &&& compact_date(all) is Some ==> address_date(Some(url)) == compact_date(all)
            &&& compact_date(all) is None ==> address_date(Some(url)) == segmented_date(all)
        },
{
}

} // verus!
