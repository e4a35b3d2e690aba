use vstd::prelude::*;
use crate::text::{chars_of, starts_with_str, views};

verus! {

/// The `href` values of the anchors of an HTML document, in the order in which
/// the parsed tree yields its elements.
pub uninterp spec fn anchor_hrefs_of(html: Seq<char>) -> Seq<Seq<char>>;

/// `url::Url::parse` of a string: its scheme and its serialization where it
/// parses as an absolute URL.
pub uninterp spec fn parsed_url_of(s: Seq<char>) -> Option<(Seq<char>, Seq<char>)>;

/// `url::Url::join` of `href` onto `base` (which must itself parse), serialized.
pub uninterp spec fn joined_url_of(base: Seq<char>, href: Seq<char>) -> Option<Seq<char>>;

/// The host of a URL as `url::Url::host_str` gives it, where the URL parses
/// and has one.
pub uninterp spec fn url_host_of(s: Seq<char>) -> Option<Seq<char>>;

/// Relies on scraper's `Html::parse_document` and `Html::select` with
/// `a[href]`: the `href` of each matching element, in the order in which the
/// parsed tree yields them.
#[verifier::external_body]
fn anchor_hrefs(html: &str) -> (r: Vec<String>)
    ensures
        views(r@) == anchor_hrefs_of(html@),
{
    let document = scraper::Html::parse_document(html);
    let selector = scraper::Selector::parse("a[href]").unwrap();
    document.select(&selector).filter_map(|e| e.value().attr("href")).map(|h| h.to_string()).collect()
}

/// Relies on `url::Url::parse`, `Url::scheme` and the URL's serialization.
#[verifier::external_body]
fn parse_absolute(s: &str) -> (r: Option<(String, String)>)
    ensures
        match r {
            Some(p) => parsed_url_of(s@) == Some((p.0@, p.1@)),
            None => parsed_url_of(s@) is None,
        },
{
    match url::Url::parse(s) {
        Ok(u) => Some((u.scheme().to_string(), u.to_string())),
        Err(_) => None,
    }
}

/// Relies on `url::Url::parse` of the base and `Url::join`, serialized.
#[verifier::external_body]
fn join_url(base: &str, href: &str) -> (r: Option<String>)
    ensures
        r is Some <==> joined_url_of(base@, href@) is Some,
        r is Some ==> joined_url_of(base@, href@) == Some(r->0@),
        parsed_url_of(base@) is None ==> r is None,
{
    match url::Url::parse(base) {
        Ok(b) => b.join(href).ok().map(|u| u.to_string()),
        Err(_) => None,
    }
}

/// Relies on `url::Url::parse` and `Url::host_str`.
#[verifier::external_body]
fn url_host(s: &str) -> (r: Option<String>)
    ensures
        r is Some <==> url_host_of(s@) is Some,
        r is Some ==> url_host_of(s@) == Some(r->0@),
{
    match url::Url::parse(s) {
        Ok(u) => u.host_str().map(|h| h.to_string()),
        Err(_) => None,
    }
}

/// `p` is a prefix of `s`.
pub open spec fn has_prefix(s: Seq<char>, p: Seq<char>) -> bool {
    p.len() <= s.len() && s.subrange(0, p.len() as int) == p
}

/// `p` is a suffix of `s`.
pub open spec fn has_suffix(s: Seq<char>, p: Seq<char>) -> bool {
    p.len() <= s.len() && s.subrange(s.len() - p.len(), s.len() as int) == p
}

/// An `href` that is never followed: a fragment, or a mail, phone,
/// script or data link.
pub open spec fn skipped_href(h: Seq<char>) -> bool {
    has_prefix(h, "#"@) || has_prefix(h, "mailto:"@) || has_prefix(h, "tel:"@)
        || has_prefix(h, "javascript:"@) || has_prefix(h, "data:"@)
}

/// The absolute URL that an `href` found on the page at `base` leads to, if
/// it is followed.
pub open spec fn link_target(base: Seq<char>, h: Seq<char>) -> Option<Seq<char>> {
    if skipped_href(h) {
        None
    } else {
        match parsed_url_of(h) {
            Some(p) => if p.0 == "http"@ || p.0 == "https"@ {
                Some(p.1)
            } else {
                None
            },
            None => joined_url_of(base, h),
        }
    }
}

/// The URLs that the `href`s `hs` found on the page at `base` lead to, in order.
pub open spec fn links_spec(base: Seq<char>, hs: Seq<Seq<char>>) -> Seq<Seq<char>>
    decreases hs.len(),
{
    if hs.len() == 0 {
        Seq::empty()
    } else {
        let prev = links_spec(base, hs.drop_last());
        match link_target(base, hs.last()) {
            Some(u) => prev.push(u),
            None => prev,
        }
    }
}

/// The host of the seed URL, or the empty string where it has none.
pub open spec fn domain_spec(url: Seq<char>) -> Seq<char> {
    match url_host_of(url) {
        Some(h) => h,
        None => Seq::empty(),
    }
}

/// The seed as given where it starts with `http://` or `https://`, else with
/// `http://` put before it.
pub open spec fn seed_spec(input: Seq<char>) -> Seq<char> {
    if has_prefix(input, "http://"@) || has_prefix(input, "https://"@) {
        input
    } else {
        "http://"@ + input
    }
}

/// Whether an `href` is one that is never followed.
pub fn is_skipped_href(href: &str) -> (r: bool)
    ensures
        r == skipped_href(href@),
{
    let v = chars_of(href);
    starts_with_str(&v, "#") || starts_with_str(&v, "mailto:") || starts_with_str(&v, "tel:")
        || starts_with_str(&v, "javascript:") || starts_with_str(&v, "data:")
}

/// The absolute URL that `href`, found on the page at `base`, leads to.
pub fn resolve_link(base: &str, href: &str) -> (r: Option<String>)
    ensures
        r is Some <==> link_target(base@, href@) is Some,
        r is Some ==> link_target(base@, href@) == Some(r->0@),
{
    if is_skipped_href(href) {
        return None;
    }
    match parse_absolute(href) {
        Some(p) => {
            let scheme = chars_of(p.0.as_str());
            if crate::text::chars_eq_str(&scheme, "http") || crate::text::chars_eq_str(
                &scheme,
                "https",
            ) {
                Some(p.1)
            } else {
                None
            }
        },
        None => join_url(base, href),
    }
}

/// The URLs that the `href`s `hrefs`, found on the page at `base`, lead to.
pub fn links_from_hrefs(hrefs: &Vec<String>, base: &str) -> (r: Vec<String>)
    ensures
        views(r@) == links_spec(base@, views(hrefs@)),
{
    let mut r: Vec<String> = Vec::new();
    let mut i: usize = 0;
    while i < hrefs.len()
        invariant
            i <= hrefs@.len(),
            views(r@) == links_spec(base@, views(hrefs@).subrange(0, i as int)),
        decreases hrefs@.len() - i,
    {
        let t = resolve_link(base, hrefs[i].as_str());
        let ghost prefix = views(hrefs@).subrange(0, i + 1);
        assert(prefix.drop_last() =~= views(hrefs@).subrange(0, i as int));
        assert(prefix.last() == hrefs@[i as int]@);
        match t {
            Some(u) => {
                r.push(u);
                assert(views(r@) =~= links_spec(base@, prefix));
            },
            None => {
                assert(views(r@) =~= links_spec(base@, prefix));
            },
        }
        i = i + 1;
    }
    assert(views(hrefs@).subrange(0, hrefs@.len() as int) =~= views(hrefs@));
    r
}

/// The absolute http(s) URLs that the anchors of `html`, the page at
/// `base_url`, lead to, in the order in which the parsed tree yields the anchors.
pub fn extract_links(html: &str, base_url: &str) -> (r: Vec<String>)
    ensures
        views(r@) == links_spec(base_url@, anchor_hrefs_of(html@)),
{
    let hrefs = anchor_hrefs(html);
    links_from_hrefs(&hrefs, base_url)
}

/// The host of `url`, or the empty string where it does not parse or has none.
pub fn get_domain(url: &str) -> (r: String)
    ensures
        r@ == domain_spec(url@),
{
    match url_host(url) {
        Some(h) => h,
        None => String::new(),
    }
}

/// The seed URL for the crawl: `input`, with `http://` before it unless it
/// already starts with `http://` or `https://`.
pub fn seed_url(input: &str) -> (r: String)
    ensures
        r@ == seed_spec(input@),
{
    let v = chars_of(input);
    if starts_with_str(&v, "http://") || starts_with_str(&v, "https://") {
        input.to_string()
    } else {
        let mut s = String::from_str("http://");
        s.append(input);
        s
    }
}

} // verus!
