//! Web addresses, as the `url` library behind `reqwest` reads them.

use vstd::prelude::*;

use crate::text::{
    ascii_lower, chars_of, contains, contains_text, copy_range, drop_prefixes, drop_trailing,
    ends_with, ends_with_text, is_blank, same_text, starts_with, starts_with_text, string_of, text_opt,
    to_ascii_lower, trim, trimmed, without_prefixes, without_trailing,
};

verus! {

/// An address taken apart. `plain` is the whole address without its fragment.
#[derive(Debug)]
pub struct UrlParts {
    pub scheme: String,
    pub host: Option<String>,
    pub username: String,
    pub password: Option<String>,
    pub path: String,
    pub plain: String,
}

pub ghost struct UrlView {
    pub scheme: Seq<char>,
    pub host: Option<Seq<char>>,
    pub username: Seq<char>,
    pub password: Option<Seq<char>>,
    pub path: Seq<char>,
    pub plain: Seq<char>,
}

impl View for UrlParts {
    type V = UrlView;

    open spec fn view(&self) -> UrlView {
        UrlView {
            scheme: self.scheme@,
            host: text_opt(self.host),
            username: self.username@,
            password: text_opt(self.password),
            path: self.path@,
            plain: self.plain@,
        }
    }
}

pub open spec fn parts_view(parts: Option<UrlParts>) -> Option<UrlView> {
    match parts {
        Some(value) => Some(value@),
        None => None,
    }
}

/// What an absolute address consists of; where it is none, the text of the
/// parser's error.
pub uninterp spec fn url_read(raw: Seq<char>) -> Result<UrlView, Seq<char>>;

/// What an absolute address consists of; `None` where it is none.
pub open spec fn url_parsed(raw: Seq<char>) -> Option<UrlView> {
    match url_read(raw) {
        Ok(url) => Some(url),
        Err(_) => None,
    }
}

pub open spec fn parts_result(parts: Result<UrlParts, String>) -> Result<UrlView, Seq<char>> {
    match parts {
        Ok(value) => Ok(value@),
        Err(error) => Err(error@),
    }
}

/// What a reference consists of when it is read relative to a base address.
pub uninterp spec fn url_joined(base: Seq<char>, href: Seq<char>) -> Option<UrlView>;

/// An address with another path and without a fragment.
pub uninterp spec fn url_with_path(raw: Seq<char>, path: Seq<char>) -> Option<Seq<char>>;

/// An address with another scheme, where that can be set.
pub uninterp spec fn url_with_scheme(raw: Seq<char>, scheme: Seq<char>) -> Option<Seq<char>>;

/// `Url::parse`, with the parts that its accessors give and the text that is
/// left when `set_fragment` has removed the fragment, or the text of its error.
/// All of it is a function of the text alone.
#[verifier::external_body]
pub(crate) fn read_url(raw: &str) -> (r: Result<UrlParts, String>)
    ensures
        parts_result(r) == url_read(raw@),
{
    let mut url = reqwest::Url::parse(raw).map_err(|e| e.to_string())?;
    let (scheme, username, path) =
        (url.scheme().to_owned(), url.username().to_owned(), url.path().to_owned());
    let (host, password) = (url.host_str().map(str::to_owned), url.password().map(str::to_owned));
    url.set_fragment(None);
    Ok(UrlParts { scheme, host, username, password, path, plain: url.to_string() })
}

pub(crate) fn parse_url(raw: &str) -> (r: Option<UrlParts>)
    ensures
        parts_view(r) == url_parsed(raw@),
{
    match read_url(raw) {
        Ok(parts) => Some(parts),
        Err(_) => None,
    }
}

/// `Url::join` on a parsed base, with the same parts as `read_url` gives. A
/// base that is no address gives nothing.
#[verifier::external_body]
pub(crate) fn join_url(base: &str, href: &str) -> (r: Option<UrlParts>)
    ensures
        parts_view(r) == url_joined(base@, href@),
{
    let mut url = reqwest::Url::parse(base).ok()?.join(href).ok()?;
    let (scheme, username, path) =
        (url.scheme().to_owned(), url.username().to_owned(), url.path().to_owned());
    let (host, password) = (url.host_str().map(str::to_owned), url.password().map(str::to_owned));
    url.set_fragment(None);
    Some(UrlParts { scheme, host, username, password, path, plain: url.to_string() })
}

/// `Url::set_path` on a parsed address whose fragment `set_fragment` removed.
#[verifier::external_body]
fn set_path(raw: &str, path: &str) -> (r: Option<String>)
    ensures
        text_opt(r) == url_with_path(raw@, path@),
{
    let mut url = reqwest::Url::parse(raw).ok()?;
    url.set_fragment(None);
    url.set_path(path);
    Some(url.to_string())
}

/// `Url::set_scheme` on a parsed address, which stays as it is where the
/// scheme cannot be set.
#[verifier::external_body]
fn set_scheme(raw: &str, scheme: &str) -> (r: Option<String>)
    ensures
        text_opt(r) == url_with_scheme(raw@, scheme@),
{
    let mut url = reqwest::Url::parse(raw).ok()?;
    let _ = url.set_scheme(scheme);
    Some(url.to_string())
}

/// An address that a reader may be sent to: plain web, without credentials.
pub open spec fn web_page(url: UrlView) -> bool {
    (url.scheme == "http"@ || url.scheme == "https"@) && url.username.len() == 0
        && url.password is None
}

/// The address that a link of a page leads to, for links that lead to a page.
pub open spec fn link_target(href: Seq<char>, joined: Option<UrlView>) -> Option<Seq<char>> {
    if trim(href).len() == 0 || (href.len() > 0 && href[0] == '#') {
        None
    } else {
        match joined {
            Some(url) => if web_page(url) {
                Some(url.plain)
            } else {
                None
            },
            None => None,
        }
    }
}

/// The link's target, given what the link joins to.
pub fn target_of(href: &str, joined: Option<UrlParts>) -> (r: Option<String>)
    ensures
        text_opt(r) == link_target(href@, parts_view(joined)),
{
    let chars = chars_of(href);
    if is_blank(href) || (chars.len() > 0 && chars[0] == '#') {
        return None;
    }
    match joined {
        None => None,
        Some(url) => {
            let web: bool = same_text(&url.scheme, "http") || same_text(&url.scheme, "https");
            let anonymous: bool = chars_of(&url.username).len() == 0 && url.password.is_none();
            if web && anonymous {
                Some(url.plain)
            } else {
                None
            }
        },
    }
}

/// The page that `href` leads to from a page at `base`.
pub fn web_url(base: &str, href: &str) -> (r: Option<String>)
    ensures
        text_opt(r) == link_target(href@, url_joined(base@, href@)),
{
    let joined = join_url(base, href);
    target_of(href, joined)
}

/// A host without `www.` in front.
pub open spec fn bare_host(host: Option<Seq<char>>) -> Option<Seq<char>> {
    match host {
        Some(name) => Some(drop_prefixes(name, "www."@)),
        None => None,
    }
}

pub open spec fn host_of(url: Option<UrlView>) -> Option<Seq<char>> {
    match url {
        Some(parts) => parts.host,
        None => None,
    }
}

/// Both hosts are the same site.
pub open spec fn hosts_agree(a: Option<Seq<char>>, b: Option<Seq<char>>) -> bool {
    bare_host(a) == bare_host(b)
}

pub fn same_host(a: &Option<String>, b: &Option<String>) -> (r: bool)
    ensures
        r == hosts_agree(text_opt(*a), text_opt(*b)),
{
    match (a, b) {
        (Some(x), Some(y)) => {
            let left = without_prefixes(&chars_of(x), "www.");
            let right = without_prefixes(&chars_of(y), "www.");
            same_text(&string_of(&left), &string_of(&right))
        },
        (None, None) => true,
        _ => false,
    }
}

/// `url` is an address on the site of a page with this host.
pub open spec fn on_site(host: Option<Seq<char>>, url: Option<UrlView>) -> bool {
    url is Some && hosts_agree(url->0.host, host)
}

pub fn same_site(host: &Option<String>, url: &str) -> (r: bool)
    ensures
        r == on_site(text_opt(*host), url_parsed(url@)),
{
    match parse_url(url) {
        Some(parts) => same_host(&parts.host, host),
        None => false,
    }
}

/// A host that only mirrors feeds.
pub open spec fn feed_mirror(host: Option<Seq<char>>) -> bool {
    match bare_host(host) {
        Some(name) => name == "feeds.feedburner.com"@ || starts_with(name, "feeds."@) || contains(
            name,
            "feedburner"@,
        ),
        None => false,
    }
}

pub fn is_feed_mirror(host: &Option<String>) -> (r: bool)
    ensures
        r == feed_mirror(text_opt(*host)),
{
    match host {
        None => false,
        Some(name) => {
            let bare = without_prefixes(&chars_of(name), "www.");
            same_text(&string_of(&bare), "feeds.feedburner.com") || starts_with_text(
                &bare,
                "feeds.",
            ) || contains_text(&bare, "feedburner")
        },
    }
}

/// The path by which equivalent addresses of an article agree: without
/// slashes at its end and without a trailing `index.html`.
pub open spec fn article_path(path: Seq<char>) -> Seq<char> {
    let open = drop_trailing(path, '/');
    let inner = if ends_with(open, "/index.html"@) {
        open.take(open.len() - "/index.html"@.len())
    } else {
        open
    };
    if inner.len() == 0 {
        "/"@
    } else {
        inner
    }
}

pub fn normal_path(path: &str) -> (r: String)
    ensures
        r@ == article_path(path@),
{
    let open = without_trailing(&chars_of(path), '/');
    if ends_with_text(&open, "/index.html") {
        let suffix = chars_of("/index.html");
        let inner = copy_range(&open, 0, open.len() - suffix.len());
        proof {
            assert(inner@ =~= open@.take(open@.len() - "/index.html"@.len()));
        }
        if inner.len() == 0 {
            "/".to_owned()
        } else {
            string_of(&inner)
        }
    } else if open.len() == 0 {
        "/".to_owned()
    } else {
        string_of(&open)
    }
}

proof fn lemma_drop_trailing_push(s: Seq<char>, c: char)
    ensures
        drop_trailing(s.push(c), c) == drop_trailing(s, c),
{
    assert(s.push(c).drop_last() =~= s);
}

/// A path and the same path with a slash behind it lead to one article. So
/// does the path with `index.html` behind it, unless it ends in that already.
pub proof fn equivalent_paths_agree(path: Seq<char>)
    ensures
        article_path(path + "/"@) == article_path(path),
        drop_trailing(path, '/') == path && !ends_with(path, "/index.html"@) ==> article_path(
            path + "/index.html"@,
        ) == article_path(path) && article_path(path + "/index.html/"@) == article_path(path),
{
    reveal_strlit("/");
    reveal_strlit("/index.html");
    reveal_strlit("/index.html/");
    assert(path + "/"@ =~= path.push('/'));
    lemma_drop_trailing_push(path, '/');
    let long = path + "/index.html"@;
    assert(long.last() == 'l');
    assert(drop_trailing(long, '/') == long);
    assert(long.subrange(path.len() as int, long.len() as int) =~= "/index.html"@);
    assert(ends_with(long, "/index.html"@));
    assert(long.take(long.len() - 11) =~= path);
    assert(path + "/index.html/"@ =~= long.push('/'));
    lemma_drop_trailing_push(long, '/');
}

/// What identifies an article, given how its address is read.
pub open spec fn identity_of(
    raw: Seq<char>,
    url: Option<UrlView>,
    rewritten: Option<Seq<char>>,
) -> Seq<char> {
    match (url, rewritten) {
        (Some(_), Some(text)) => ascii_lower(drop_trailing(text, '/')),
        _ => ascii_lower(trim(raw)),
    }
}

pub open spec fn canonical_identity(raw: Seq<char>) -> Seq<char> {
    let url = url_parsed(trim(raw));
    identity_of(
        raw,
        url,
        match url {
            Some(parts) => url_with_path(trim(raw), article_path(parts.path)),
            None => None,
        },
    )
}

/// What identifies the article at an address: letter case, the fragment,
/// slashes at the end and `index.html` do not matter.
pub fn canonical_article_identity(raw: &str) -> (r: String)
    ensures
        r@ == canonical_identity(raw@),
{
    let inner = trimmed(raw);
    let rewritten: Option<String> = match parse_url(&inner) {
        Some(parts) => set_path(&inner, &normal_path(&parts.path)),
        None => None,
    };
    match rewritten {
        Some(text) => {
            let open = without_trailing(&chars_of(&text), '/');
            string_of(&to_ascii_lower(&open))
        },
        None => string_of(&to_ascii_lower(&chars_of(&inner))),
    }
}

/// The host of a resource, or the whole address where it has none.
pub fn resource_domain(url: &str) -> (r: String)
    ensures
        r@ == (match host_of(url_parsed(url@)) {
            Some(host) => host,
            None => url@,
        }),
{
    match parse_url(url) {
        Some(parts) => match parts.host {
            Some(host) => host,
            None => url.to_owned(),
        },
        None => url.to_owned(),
    }
}

/// The addresses to try for an archive page: the secure one before a plain one.
pub open spec fn archive_addresses(raw: Seq<char>, url: Option<UrlView>, secured: Option<Seq<char>>) -> Seq<Seq<char>> {
    if url is Some && url->0.scheme == "http"@ && secured is Some {
        seq![secured->0, raw]
    } else {
        seq![raw]
    }
}

pub fn archive_candidates_for(raw: &str) -> (r: Vec<String>)
    ensures
        crate::text::texts(r@) == archive_addresses(raw@, url_parsed(raw@), url_with_scheme(raw@, "https"@)),
{
    let mut r: Vec<String> = Vec::new();
    match parse_url(raw) {
        Some(parts) => if same_text(&parts.scheme, "http") {
            match set_scheme(raw, "https") {
                Some(text) => {
                    r.push(text);
                },
                None => {},
            }
        },
        None => {},
    }
    r.push(raw.to_owned());
    proof {
        assert(crate::text::texts(r@) =~= archive_addresses(
            raw@,
            url_parsed(raw@),
            url_with_scheme(raw@, "https"@),
        ));
    }
    r
}

/// A link is followed exactly where it names something, does not only point
/// into its own page, and leads to an address of the web without a user or a
/// password; it then leads to that address without its fragment.
pub proof fn only_web_addresses_are_followed(href: Seq<char>, joined: Option<UrlView>)
    ensures
        link_target(href, joined) is Some <==> {
            &&& trim(href).len() > 0
            &&& !(href.len() > 0 && href[0] == '#')
            &&& joined is Some
            &&& joined->0.scheme == "http"@ || joined->0.scheme == "https"@
            &&& joined->0.username.len() == 0
            &&& joined->0.password is None
        },
        link_target(href, joined) matches Some(target) ==> target == joined->0.plain,
{
}

/// Two addresses are of one site where their hosts agree but for a leading
/// `www.`; an address that cannot be read is of no site.
pub proof fn sites_are_told_by_their_host(a: Seq<char>, b: Seq<char>, url: Option<UrlView>)
    ensures
        hosts_agree(Some("www."@ + a), Some(a)),
        hosts_agree(Some(a), Some("www."@ + b)) <==> hosts_agree(Some(a), Some(b)),
        !starts_with(a, "www."@) && !starts_with(b, "www."@) ==> (hosts_agree(Some(a), Some(b))
            <==> a == b),
        !hosts_agree(Some(a), None),
        on_site(Some(a), None) == false,
        url matches Some(parts) ==> (on_site(Some(a), url) <==> hosts_agree(parts.host, Some(a))),
{
    reveal_strlit("www.");
    lemma_www(a);
    lemma_www(b);
}

proof fn lemma_www(a: Seq<char>)
    ensures
        drop_prefixes("www."@ + a, "www."@) == drop_prefixes(a, "www."@),
{
    reveal_strlit("www.");
    let long = "www."@ + a;
    assert(long.subrange(0, 4) =~= "www."@);
    assert(starts_with(long, "www."@));
    assert(long.skip(4) =~= a);
}

/// A host only mirrors feeds where it is the feed host of a mirror: its name
/// begins with `feeds.` or speaks of feedburner, a leading `www.` aside.
pub proof fn mirrors_are_told_by_their_host(host: Seq<char>)
    requires
        !starts_with(host, "www."@),
    ensures
        feed_mirror(Some(host)) <==> host == "feeds.feedburner.com"@ || starts_with(
            host,
            "feeds."@,
        ) || contains(host, "feedburner"@),
        !feed_mirror(None),
{
}

/// An article is known by its address in lower case, without a slash at the end
/// and with its path in the common form; an address that cannot be read, by its
/// text in lower case.
pub proof fn articles_are_known_by_their_address(raw: Seq<char>, again: Seq<char>)
    ensures
        url_parsed(trim(raw)) is None ==> canonical_identity(raw) == ascii_lower(trim(raw)),
        url_parsed(trim(raw)) matches Some(parts) ==> (url_with_path(
            trim(raw),
            article_path(parts.path),
        ) matches Some(text) ==> canonical_identity(raw) == ascii_lower(drop_trailing(text, '/'))),
        trim(raw) == trim(again) ==> canonical_identity(raw) == canonical_identity(again),
{
}

/// An archive at a plain address is sought at its secure address first; any
/// other only where it is.
pub proof fn plain_archives_are_sought_securely_first(
    raw: Seq<char>,
    url: Option<UrlView>,
    secured: Option<Seq<char>>,
)
    ensures
        archive_addresses(raw, url, secured).last() == raw,
        (url matches Some(parts) && parts.scheme == "http"@) && secured is Some
            ==> archive_addresses(raw, url, secured) == seq![secured->0, raw],
        !((url matches Some(parts) && parts.scheme == "http"@) && secured is Some)
            ==> archive_addresses(raw, url, secured) == seq![raw],
{
}

/// The common form of a path is without slashes at its end and without an index
/// file; the root stays.
pub proof fn paths_have_a_common_form(path: Seq<char>)
    ensures
        drop_trailing(path, '/') == path && path.len() > 0 && !ends_with(path, "/index.html"@)
            ==> article_path(path) == path,
        drop_trailing(path, '/').len() == 0 ==> article_path(path) == "/"@,
        drop_trailing(path, '/') == "/index.html"@ ==> article_path(path) == "/"@,
{
    reveal_strlit("/index.html");
    if drop_trailing(path, '/') == "/index.html"@ {
        let open = "/index.html"@;
        assert(open.subrange(0, open.len() as int) =~= open);
        assert(ends_with(open, open));
    }
}

} // verus!
