//! Feeds, as `feed_rs` reads them.

use feed_rs::parser::{parse, Builder};
use vstd::prelude::*;
use vstd::utf8::encode_utf8;

use crate::feed_scan::{can_be_parsed, parser_returns_on};
use crate::text::{chars_of, text_opt, texts};

verus! {

#[derive(Debug)]
pub struct FeedLink {
    pub href: String,
    pub rel: Option<String>,
    pub media_type: Option<String>,
}

/// An entry of a feed, with the addresses that it links to. Where the feed
/// gives no identity, `feed_rs` makes one up: from the first link and the
/// title, or by chance for an entry without links, which is noted.
#[derive(Debug)]
pub struct FeedEntry {
    pub id: String,
    pub by_chance: bool,
    pub links: Vec<String>,
    pub title: Option<String>,
    pub authors: Vec<String>,
    pub published: Option<i64>,
    pub updated: Option<i64>,
    pub content: Option<String>,
    pub summary: Option<String>,
}

#[derive(Debug)]
pub struct FeedDocument {
    pub links: Vec<FeedLink>,
    pub entries: Vec<FeedEntry>,
}

pub ghost struct LinkView {
    pub href: Seq<char>,
    pub rel: Option<Seq<char>>,
    pub media_type: Option<Seq<char>>,
}

/// An entry. An identity that came about by chance is left out.
pub ghost struct FeedEntryView {
    pub id: Option<Seq<char>>,
    pub links: Seq<Seq<char>>,
    pub title: Option<Seq<char>>,
    pub authors: Seq<Seq<char>>,
    pub published: Option<i64>,
    pub updated: Option<i64>,
    pub content: Option<Seq<char>>,
    pub summary: Option<Seq<char>>,
}

pub ghost struct FeedView {
    pub links: Seq<LinkView>,
    pub entries: Seq<FeedEntryView>,
}

impl View for FeedLink {
    type V = LinkView;

    open spec fn view(&self) -> LinkView {
        LinkView {
            href: self.href@,
            rel: text_opt(self.rel),
            media_type: text_opt(self.media_type),
        }
    }
}

pub open spec fn link_views(s: Seq<FeedLink>) -> Seq<LinkView> {
    s.map_values(|l: FeedLink| l@)
}

impl View for FeedEntry {
    type V = FeedEntryView;

    open spec fn view(&self) -> FeedEntryView {
        FeedEntryView {
            id: if self.by_chance {
                None
            } else {
                Some(self.id@)
            },
            links: texts(self.links@),
            title: text_opt(self.title),
            authors: texts(self.authors@),
            published: self.published,
            updated: self.updated,
            content: text_opt(self.content),
            summary: text_opt(self.summary),
        }
    }
}

pub open spec fn feed_entry_views(s: Seq<FeedEntry>) -> Seq<FeedEntryView> {
    s.map_values(|e: FeedEntry| e@)
}

impl View for FeedDocument {
    type V = FeedView;

    open spec fn view(&self) -> FeedView {
        FeedView { links: link_views(self.links@), entries: feed_entry_views(self.entries@) }
    }
}

/// What came of reading a feed: what it says, or why it could not be read.
pub open spec fn feed_view(feed: Result<FeedDocument, String>) -> Result<FeedView, Seq<char>> {
    match feed {
        Ok(document) => Ok(document@),
        Err(error) => Err(error@),
    }
}

fn link(href: String, rel: Option<String>, media_type: Option<String>) -> (r: FeedLink)
    ensures
        r == (FeedLink { href, rel, media_type }),
{
    FeedLink { href, rel, media_type }
}

fn entry(
    id: String,
    links: Vec<String>,
    title: Option<String>,
    authors: Vec<String>,
    published: Option<i64>,
    updated: Option<i64>,
    content: Option<String>,
    summary: Option<String>,
) -> (r: FeedEntry)
    ensures
        r == (FeedEntry {
            id,
            by_chance: links@.len() == 0,
            links,
            title,
            authors,
            published,
            updated,
            content,
            summary,
        }),
{
    let by_chance: bool = links.len() == 0;
    FeedEntry { id, by_chance, links, title, authors, published, updated, content, summary }
}

/// What a feed says, but for the identities of entries that link nowhere; for
/// bytes that are no feed, the text of the parser's error.
pub uninterp spec fn feed_parsed(bytes: Seq<u8>) -> Result<FeedView, Seq<char>>;

/// The identities that a feed itself gives to its entries, empty where it gives
/// none.
pub uninterp spec fn feed_ids(bytes: Seq<u8>) -> Seq<Seq<char>>;

/// `feed_rs::parser::parse`: a function of the bytes alone, apart from the
/// identities of entries that link nowhere. Those are what the feed gives, and
/// are drawn at random where it gives none; nothing is stated of the latter. It
/// panics on durations that it cannot hold and recurses into nested elements,
/// which is why it is called on feeds without either only.
#[verifier::external_body]
fn parse_feed(bytes: &[u8]) -> (r: Result<(Vec<FeedLink>, Vec<FeedEntry>), String>)
    requires
        exists|text: Seq<char>| bytes@ == #[trigger] encode_utf8(text) && parser_returns_on(text),
    ensures
        match r {
            Ok((links, entries)) => feed_parsed(bytes@) == Ok::<FeedView, Seq<char>>(
                (FeedDocument { links, entries })@,
            ) && entries@.len() == feed_ids(bytes@).len() && forall|k: int|
                0 <= k < entries@.len() && feed_ids(bytes@)[k].len() > 0 ==> (
                #[trigger] entries@[k]).id@ == feed_ids(bytes@)[k],
            Err(error) => feed_parsed(bytes@) == Err::<FeedView, Seq<char>>(error@),
        },
{
    parse(bytes).map_err(|e| e.to_string()).map(|feed| (
        feed.links.into_iter().map(|l| link(l.href, l.rel, l.media_type)).collect(),
        feed.entries.into_iter().map(|e| entry(
            e.id,
            e.links.into_iter().map(|l| l.href).collect(),
            e.title.map(|t| t.content),
            e.authors.into_iter().map(|p| p.name).collect(),
            e.published.map(|t| t.timestamp()),
            e.updated.map(|t| t.timestamp()),
            e.content.and_then(|c| c.body),
            e.summary.map(|t| t.content)
        )).collect()
    ))
}

fn no_identity() -> (r: String)
    ensures
        r@.len() == 0,
{
    String::new()
}

/// `feed_rs`'s `Parser::parse`, with a generator of identities that gives empty
/// ones in place of those that the feed leaves out. Bytes that are no feed have
/// none. It takes the same feeds as `parse` does.
#[verifier::external_body]
fn given_ids(bytes: &[u8]) -> (r: Vec<String>)
    requires
        exists|text: Seq<char>| bytes@ == #[trigger] encode_utf8(text) && parser_returns_on(text),
    ensures
        texts(r@) == feed_ids(bytes@),
{
    let parser = Builder::new().id_generator(|_, _, _| no_identity()).build();
    let feed = parser.parse(bytes);
    feed.map(|f| f.entries.into_iter().map(|e| e.id).collect()).unwrap_or_default()
}

/// The entries with the identities that the feed gives to those that link
/// nowhere.
pub open spec fn with_given_ids(entries: Seq<FeedEntryView>, ids: Seq<Seq<char>>) -> Seq<
    FeedEntryView,
> {
    Seq::new(
        entries.len(),
        |k: int|
            if entries[k].links.len() == 0 && ids[k].len() > 0 {
                FeedEntryView { id: Some(ids[k]), ..entries[k] }
            } else {
                entries[k]
            },
    )
}

/// What the bytes of a feed say.
pub open spec fn feed_identified(bytes: Seq<u8>) -> Result<FeedView, Seq<char>> {
    match feed_parsed(bytes) {
        Ok(feed) => Ok(
            FeedView { entries: with_given_ids(feed.entries, feed_ids(bytes)), ..feed },
        ),
        Err(error) => Err(error),
    }
}

fn identify(entries: &mut Vec<FeedEntry>, ids: &[String])
    requires
        old(entries)@.len() == ids@.len(),
        forall|k: int|
            0 <= k < ids@.len() && ids@[k]@.len() > 0 ==> (#[trigger] old(entries)@[k]).id@
                == ids@[k]@,
    ensures
        feed_entry_views(final(entries)@) == with_given_ids(
            feed_entry_views(old(entries)@),
            texts(ids@),
        ),
{
    let ghost start = entries@;
    let mut i: usize = 0;
    while i < entries.len()
        invariant
            i <= entries.len(),
            entries@.len() == start.len(),
            start.len() == ids@.len(),
            forall|k: int|
                0 <= k < ids@.len() && ids@[k]@.len() > 0 ==> (#[trigger] start[k]).id@
                    == ids@[k]@,
            forall|k: int| i <= k < start.len() ==> #[trigger] entries@[k] == start[k],
            forall|k: int|
                0 <= k < i ==> (#[trigger] entries@[k])@ == with_given_ids(
                    feed_entry_views(start),
                    texts(ids@),
                )[k],
        decreases entries.len() - i,
    {
        let given: bool = chars_of(&ids[i]).len() > 0;
        proof {
            assert(feed_entry_views(start)[i as int] == start[i as int]@);
            assert(texts(ids@)[i as int] == ids@[i as int]@);
            assert(entries@[i as int] == start[i as int]);
        }
        if given && entries[i].links.len() == 0 {
            entries[i].by_chance = false;
        }
        i += 1;
    }
    proof {
        assert(feed_entry_views(entries@) =~= with_given_ids(
            feed_entry_views(start),
            texts(ids@),
        ));
    }
}

fn one_links_nowhere(entries: &[FeedEntry]) -> (r: bool)
    ensures
        r == exists|k: int| 0 <= k < entries@.len() && (#[trigger] entries@[k]).links@.len() == 0,
{
    let mut i: usize = 0;
    while i < entries.len()
        invariant
            i <= entries.len(),
            forall|k: int| 0 <= k < i ==> (#[trigger] entries@[k]).links@.len() > 0,
        decreases entries.len() - i,
    {
        if entries[i].links.len() == 0 {
            return true;
        }
        i += 1;
    }
    false
}

/// What the text of a feed says. A feed that the parser might not get through
/// is refused.
pub open spec fn feed_read(text: Seq<char>) -> Result<FeedView, Seq<char>> {
    if parser_returns_on(text) {
        feed_identified(encode_utf8(text))
    } else {
        Err("订阅源无法解析"@)
    }
}

pub(crate) fn read_feed(text: &str) -> (r: Result<FeedDocument, String>)
    ensures
        feed_view(r) == feed_read(text@),
{
    if can_be_parsed(text) {
        match parse_feed(text.as_bytes()) {
            Ok((links, entries)) => {
                if !one_links_nowhere(&entries) {
                    proof {
                        let views = feed_entry_views(entries@);
                        let ids = feed_ids(encode_utf8(text@));
                        assert forall|k: int| 0 <= k < views.len() implies (
                        #[trigger] views[k]).links.len() > 0 by {
                            assert(views[k] == entries@[k]@);
                        }
                        assert(with_given_ids(views, ids) =~= views);
                    }
                    return Ok(FeedDocument { links, entries });
                }
                let mut entries = entries;
                let ids = given_ids(text.as_bytes());
                proof {
                    assert(texts(ids@).len() == ids@.len());
                    assert forall|k: int| 0 <= k < ids@.len() && ids@[k]@.len() > 0 implies (
                    #[trigger] entries@[k]).id@ == ids@[k]@ by {
                        assert(texts(ids@)[k] == ids@[k]@);
                    }
                }
                identify(&mut entries, &ids);
                Ok(FeedDocument { links, entries })
            },
            Err(error) => Err(error),
        }
    } else {
        Err("订阅源无法解析".to_owned())
    }
}

/// A feed is read as the parser reads its text, and an entry without a link
/// keeps the identity that it was given; what the parser does not get through
/// is refused.
pub proof fn feeds_are_read_by_the_parser(text: Seq<char>, k: int)
    ensures
        !parser_returns_on(text) ==> feed_read(text) == Err::<FeedView, Seq<char>>(
            "订阅源无法解析"@,
        ),
        parser_returns_on(text) ==> match feed_parsed(encode_utf8(text)) {
            Err(error) => feed_read(text) == Err::<FeedView, Seq<char>>(error),
            Ok(feed) => feed_read(text) is Ok && ({
                let read = feed_read(text)->Ok_0;
                let given = feed_ids(encode_utf8(text));
                &&& read.links == feed.links
                &&& read.entries.len() == feed.entries.len()
                &&& 0 <= k < feed.entries.len() ==> {
                    &&& read.entries[k].links == feed.entries[k].links
                    &&& read.entries[k].title == feed.entries[k].title
                    &&& read.entries[k].authors == feed.entries[k].authors
                    &&& read.entries[k].published == feed.entries[k].published
                    &&& read.entries[k].updated == feed.entries[k].updated
                    &&& read.entries[k].content == feed.entries[k].content
                    &&& read.entries[k].summary == feed.entries[k].summary
                    &&& feed.entries[k].links.len() > 0 || given[k].len() == 0
                        ==> read.entries[k].id == feed.entries[k].id
                    &&& feed.entries[k].links.len() == 0 && given[k].len() > 0
                        ==> read.entries[k].id == Some(given[k])
                }
            }),
        },
{
}

} // verus!
