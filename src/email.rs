use vstd::prelude::*;
use crate::rot13::{rot13_chars, rot13_spec};
use crate::text::{
    after_last, chars_eq_str, chars_of, contains_seq, contains_str, find_char, first_index,
    last_index, rfind_char_end, slice_chars, string_of, trim_chars, trim_spec, views,
};

verus! {

/// Pattern that picks address-like runs out of page text.
pub const CANDIDATE_PATTERN: &'static str = "(?i)([a-z0-9._%+-]+@[a-z0-9-]+(?:\\.[a-z0-9-]+)*\\.[a-z]{2,})";

/// Pattern that a whole address must match; group 1 is its final label.
pub const ADDRESS_PATTERN: &'static str = "(?i)^[a-z0-9._%+-]+@[a-z0-9-]+(?:\\.[a-z0-9-]+)*\\.([a-z]{2,})$";

/// A character that `[a-z]` matches when matching ignores case: the ASCII
/// letters of either case, the Kelvin sign (which folds to `k`) and the long s
/// (which folds to `s`).
pub open spec fn ci_letter(c: char) -> bool {
    ('a' <= c && c <= 'z') || ('A' <= c && c <= 'Z') || c == '\u{212a}' || c == '\u{17f}'
}

/// A character of a host label: `[a-z0-9-]`, ignoring case.
pub open spec fn label_char(c: char) -> bool {
    ci_letter(c) || ('0' <= c && c <= '9') || c == '-'
}

/// A character of a local part: `[a-z0-9._%+-]`, ignoring case.
pub open spec fn local_char(c: char) -> bool {
    label_char(c) || c == '.' || c == '_' || c == '%' || c == '+'
}

/// `h` is one or more dot-separated labels followed by a dot and a final
/// label of at least two letters.
pub open spec fn host_shape(h: Seq<char>) -> bool {
    let d = last_index(h, '.', h.len() as int);
    &&& d >= 1
    &&& h.len() - d - 1 >= 2
    &&& forall|i: int| d < i < h.len() ==> ci_letter(#[trigger] h[i])
    &&& h[0] != '.'
    &&& h[d - 1] != '.'
    &&& forall|i: int| 0 <= i < d ==> label_char(#[trigger] h[i]) || h[i] == '.'
    &&& forall|i: int| 0 <= i < d - 1 ==> !(#[trigger] h[i] == '.' && h[i + 1] == '.')
}

/// `s`, taken whole, has the form of an address: a non-empty local part, one
/// `@`, and a host as `host_shape` describes.
pub open spec fn address_shape(s: Seq<char>) -> bool {
    let a = first_index(s, '@', 0);
    &&& 0 < a < s.len()
    &&& forall|i: int| 0 <= i < a ==> local_char(#[trigger] s[i])
    &&& host_shape(s.subrange(a + 1, s.len() as int))
}

/// The top-level domains that an address may end in.
pub open spec fn common_tld(t: Seq<char>) -> bool {
    t == "com"@ || t == "org"@ || t == "net"@ || t == "edu"@ || t == "gov"@ || t == "mil"@
        || t == "int"@ || t == "co"@ || t == "io"@ || t == "me"@ || t == "biz"@
        || t == "info"@ || t == "us"@ || t == "uk"@ || t == "ca"@ || t == "de"@
        || t == "jp"@ || t == "fr"@ || t == "au"@ || t == "ru"@ || t == "ch"@
        || t == "it"@ || t == "nl"@ || t == "se"@ || t == "no"@ || t == "es"@
        || t == "tv"@ || t == "ly"@
}

/// The addresses that are accepted: the right form, and a final label that,
/// lowercased, is a common top-level domain.
pub open spec fn valid_email_spec(s: Seq<char>) -> bool {
    address_shape(s) && common_tld(lowercase_spec(after_last(s, '.')))
}

/// `s` holds one of the file extensions that mark an asset name.
pub open spec fn asset_name(s: Seq<char>) -> bool {
    contains_seq(s, ".png"@) || contains_seq(s, ".jpg"@) || contains_seq(s, ".jpeg"@)
        || contains_seq(s, ".gif"@) || contains_seq(s, ".svg"@) || contains_seq(s, ".css"@)
        || contains_seq(s, ".js"@) || contains_seq(s, ".ico"@) || contains_seq(s, ".pdf"@)
        || contains_seq(s, ".zip"@) || contains_seq(s, ".rar"@) || contains_seq(s, ".exe"@)
}

/// The text between the first and the second `c` of `s` (or its end); empty
/// where `s` holds no `c`.
pub open spec fn second_field(s: Seq<char>, c: char) -> Seq<char> {
    let a = first_index(s, c, 0);
    if a >= s.len() {
        Seq::empty()
    } else {
        s.subrange(a + 1, first_index(s, c, a + 1))
    }
}

/// After ROT13, the domain part of `s` ends in a common top-level domain.
pub open spec fn likely_rot13_spec(s: Seq<char>) -> bool {
    common_tld(after_last(second_field(rot13_spec(s), '@'), '.'))
}

/// Index of the first alphanumeric character of `s` at or after `start`, or `s.len()`.
pub open spec fn skip_non_alnum(s: Seq<char>, start: int) -> int
    decreases s.len() - start,
{
    if start >= s.len() {
        s.len() as int
    } else if alnum_of(s[start]) {
        start
    } else {
        skip_non_alnum(s, start + 1)
    }
}

/// A raw match made ready for checking: trimmed, stripped of the
/// non-alphanumeric characters it starts with, and lowercased.
pub open spec fn normalize_spec(s: Seq<char>) -> Seq<char> {
    let t = trim_spec(s);
    lowercase_spec(t.subrange(skip_non_alnum(t, 0), t.len() as int))
}

/// What a normalized candidate becomes: decoded where it looks like ROT13,
/// then kept only if it is a valid address and no asset name.
pub open spec fn resolve_spec(s: Seq<char>) -> Option<Seq<char>> {
    let c = if likely_rot13_spec(s) {
        rot13_spec(s)
    } else {
        s
    };
    if valid_email_spec(c) && !asset_name(c) {
        Some(c)
    } else {
        None
    }
}

/// The addresses that a sequence of raw matches yields, in order.
pub open spec fn accepted_spec(cands: Seq<Seq<char>>) -> Seq<Seq<char>>
    decreases cands.len(),
{
    if cands.len() == 0 {
        Seq::empty()
    } else {
        let prev = accepted_spec(cands.drop_last());
        match resolve_spec(normalize_spec(cands.last())) {
            Some(e) => prev.push(e),
            None => prev,
        }
    }
}

/// The character view of an optional string.
pub open spec fn opt_view(r: Option<String>) -> Option<Seq<char>> {
    match r {
        Some(s) => Some(s@),
        None => None,
    }
}

/// The matches of `CANDIDATE_PATTERN` in a text, in order.
pub uninterp spec fn candidate_matches(text: Seq<char>) -> Seq<Seq<char>>;

/// `str::to_lowercase` of a string.
pub uninterp spec fn lower_of(s: Seq<char>) -> Seq<char>;

/// `char::is_alphanumeric` of a character.
pub uninterp spec fn alnum_of(c: char) -> bool;

/// Relies on regex's `Regex::find_iter`: the successive non-overlapping
/// matches of `CANDIDATE_PATTERN`, as strings, in the order they occur.
#[verifier::external_body]
fn find_candidates(text: &str) -> (r: Vec<String>)
    ensures
        views(r@) == candidate_matches(text@),
{
    let re = regex::Regex::new(CANDIDATE_PATTERN).unwrap();
    re.find_iter(text).map(|m| m.as_str().to_string()).collect()
}

/// Relies on regex's `Regex::captures` with `ADDRESS_PATTERN`: there is a
/// match exactly when the whole text has the form of an address (`^` and `$`
/// anchor at the ends of the text; `[a-z]` ignoring case also takes the
/// Kelvin sign and the long s), and then group 1 is the final label.
#[verifier::external_body]
fn capture_tld(s: &str) -> (r: Option<String>)
    ensures
        r is Some <==> address_shape(s@),
        r is Some ==> r->0@ == after_last(s@, '.'),
{
    let re = regex::Regex::new(ADDRESS_PATTERN).unwrap();
    re.captures(s).map(|caps| caps[1].to_string())
}

/// Every character of `s` is ASCII.
pub open spec fn all_ascii(s: Seq<char>) -> bool {
    forall|i: int| 0 <= i < s.len() ==> (#[trigger] s[i] as u32) < 128
}

/// ASCII lowercasing of one character: `A`-`Z` become `a`-`z`, all else stays.
pub open spec fn ascii_lower_char(c: char) -> char {
    if 'A' <= c && c <= 'Z' {
        ((c as u32) + 32) as char
    } else {
        c
    }
}

/// ASCII lowercasing of every character of `s`.
pub open spec fn ascii_lower(s: Seq<char>) -> Seq<char> {
    s.map_values(|c: char| ascii_lower_char(c))
}

/// `str::to_lowercase` of `s`, spelled out where `s` is ASCII.
pub open spec fn lowercase_spec(s: Seq<char>) -> Seq<char> {
    if all_ascii(s) {
        ascii_lower(s)
    } else {
        lower_of(s)
    }
}

/// Relies on `str::to_lowercase`: the result depends on the characters alone,
/// and on ASCII text it maps `A`-`Z` to `a`-`z` and keeps every other character.
#[verifier::external_body]
pub(crate) fn lowercase(s: &str) -> (r: String)
    ensures
        r@ == lower_of(s@),
        r@ == lowercase_spec(s@),
{
    s.to_lowercase()
}

/// Relies on `char::is_alphanumeric`: the result depends on the character alone.
#[verifier::external_body]
fn is_alnum(c: char) -> (r: bool)
    ensures
        r == alnum_of(c),
{
    c.is_alphanumeric()
}

/// Whether `t` is one of the common top-level domains.
pub fn is_common_tld(t: &str) -> (r: bool)
    ensures
        r == common_tld(t@),
{
    let v = chars_of(t);
    chars_eq_str(&v, "com") || chars_eq_str(&v, "org") || chars_eq_str(&v, "net")
        || chars_eq_str(&v, "edu") || chars_eq_str(&v, "gov") || chars_eq_str(&v, "mil")
        || chars_eq_str(&v, "int") || chars_eq_str(&v, "co") || chars_eq_str(&v, "io")
        || chars_eq_str(&v, "me") || chars_eq_str(&v, "biz") || chars_eq_str(&v, "info")
        || chars_eq_str(&v, "us") || chars_eq_str(&v, "uk") || chars_eq_str(&v, "ca")
        || chars_eq_str(&v, "de") || chars_eq_str(&v, "jp") || chars_eq_str(&v, "fr")
        || chars_eq_str(&v, "au") || chars_eq_str(&v, "ru") || chars_eq_str(&v, "ch")
        || chars_eq_str(&v, "it") || chars_eq_str(&v, "nl") || chars_eq_str(&v, "se")
        || chars_eq_str(&v, "no") || chars_eq_str(&v, "es") || chars_eq_str(&v, "tv")
        || chars_eq_str(&v, "ly")
}

/// Whether `email` is a well-formed address whose top-level domain is a common one.
pub fn is_valid_email(email: &str) -> (r: bool)
    ensures
        r == valid_email_spec(email@),
{
    match capture_tld(email) {
        Some(tld) => {
            let lower = lowercase(tld.as_str());
            is_common_tld(lower.as_str())
        },
        None => false,
    }
}

/// Whether `email` holds a file extension that marks it as an asset name.
pub fn is_asset_filename(email: &str) -> (r: bool)
    ensures
        r == asset_name(email@),
{
    let v = chars_of(email);
    contains_str(&v, ".png") || contains_str(&v, ".jpg") || contains_str(&v, ".jpeg")
        || contains_str(&v, ".gif") || contains_str(&v, ".svg") || contains_str(&v, ".css")
        || contains_str(&v, ".js") || contains_str(&v, ".ico") || contains_str(&v, ".pdf")
        || contains_str(&v, ".zip") || contains_str(&v, ".rar") || contains_str(&v, ".exe")
}

/// Whether `email`, once ROT13-decoded, has a domain part that ends in a
/// common top-level domain.
pub fn is_likely_rot13_encoded(email: &str) -> (r: bool)
    ensures
        r == likely_rot13_spec(email@),
{
    let v = chars_of(email);
    let d = rot13_chars(&v);
    let a = find_char(&d, '@', 0);
    let domain = if a >= d.len() {
        Vec::new()
    } else {
        let b = find_char(&d, '@', a + 1);
        slice_chars(&d, a + 1, b)
    };
    assert(domain@ == second_field(d@, '@'));
    let t = rfind_char_end(&domain, '.');
    let tld = slice_chars(&domain, t, domain.len());
    let s = string_of(&tld);
    is_common_tld(s.as_str())
}

/// Trims `raw`, strips the non-alphanumeric characters it then starts with,
/// and lowercases the rest.
pub fn normalize_candidate(raw: &str) -> (r: String)
    ensures
        r@ == normalize_spec(raw@),
{
    let v = chars_of(raw);
    let t = trim_chars(&v);
    let mut k: usize = 0;
    while k < t.len()
        invariant
            k <= t@.len(),
            skip_non_alnum(t@, 0) == skip_non_alnum(t@, k as int),
        ensures
            k <= t@.len(),
            skip_non_alnum(t@, 0) == skip_non_alnum(t@, k as int),
            k == t@.len() || alnum_of(t@[k as int]),
        decreases t@.len() - k,
    {
        if is_alnum(t[k]) {
            break;
        }
        k = k + 1;
    }
    assert(skip_non_alnum(t@, k as int) == k);
    let rest = slice_chars(&t, k, t.len());
    let s = string_of(&rest);
    lowercase(s.as_str())
}

/// What becomes of a normalized candidate: its ROT13 decoding where it looks
/// encoded, else itself; `None` where that is not a valid address or is an
/// asset name.
pub fn resolve_candidate(normalized: &str) -> (r: Option<String>)
    ensures
        opt_view(r) == resolve_spec(normalized@),
{
    let c = if is_likely_rot13_encoded(normalized) {
        let v = chars_of(normalized);
        let d = rot13_chars(&v);
        string_of(&d)
    } else {
        let v = chars_of(normalized);
        string_of(&v)
    };
    if is_valid_email(c.as_str()) && !is_asset_filename(c.as_str()) {
        Some(c)
    } else {
        None
    }
}

/// The addresses that the raw matches `cands` yield, in order.
pub fn emails_from_candidates(cands: &Vec<String>) -> (r: Vec<String>)
    ensures
        views(r@) == accepted_spec(views(cands@)),
{
    let mut r: Vec<String> = Vec::new();
    let mut i: usize = 0;
    while i < cands.len()
        invariant
            i <= cands@.len(),
            views(r@) == accepted_spec(views(cands@).subrange(0, i as int)),
        decreases cands@.len() - i,
    {
        let n = normalize_candidate(cands[i].as_str());
        let res = resolve_candidate(n.as_str());
        let ghost prefix = views(cands@).subrange(0, i + 1);
        assert(prefix.drop_last() =~= views(cands@).subrange(0, i as int));
        assert(prefix.last() == cands@[i as int]@);
        match res {
            Some(e) => {
                r.push(e);
                assert(views(r@) =~= accepted_spec(prefix));
            },
            None => {
                assert(views(r@) =~= accepted_spec(prefix));
            },
        }
        i = i + 1;
    }
    assert(views(cands@).subrange(0, cands@.len() as int) =~= views(cands@));
    r
}

/// The raw address-like matches of `CANDIDATE_PATTERN` in `text`, in order,
/// exactly as they stand in the text.
pub fn extract_emails(text: &str) -> (r: Vec<String>)
    ensures
        views(r@) == candidate_matches(text@),
{
    find_candidates(text)
}

/// The addresses found in a page's text, in the order their matches occur:
/// each match normalized, decoded where it looks like ROT13, and kept only
/// where it is valid and no asset name.
pub fn emails_in_text(text: &str) -> (r: Vec<String>)
    ensures
        views(r@) == accepted_spec(candidate_matches(text@)),
{
    let cands = extract_emails(text);
    emails_from_candidates(&cands)
}

} // verus!
