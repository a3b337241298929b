//! Deciding what the text typed into the address bar means: a local file, an
//! address, or a query for the search engine.
use vstd::prelude::*;
use vstd::string::{StrSliceExecFns, StringExecFns};
use vstd::utf8::{decode_utf8, encode_utf8, encode_utf8_decode_utf8};

use crate::percent::upper_hex;

verus! {

#[verifier::external_type_specification]
#[verifier::external_body]
pub struct ExPublicSuffixList(publicsuffix::List);

/// The search engine that queries go to.
pub const SEARCH_ENGINE: &'static str = "https://cn.bing.com/search";

/// The host of a parsed address, as far as the decision needs it.
pub enum UrlHost {
    Missing,
    Domain(String),
    Ip,
}

/// A parsed address: its serialisation, its scheme and its host.
pub struct ParsedUrl {
    pub text: String,
    pub scheme: String,
    pub host: UrlHost,
}

pub ghost enum HostView {
    Missing,
    Domain(Seq<char>),
    Ip,
}

pub ghost struct ParsedUrlView {
    pub text: Seq<char>,
    pub scheme: Seq<char>,
    pub host: HostView,
}

impl ParsedUrl {
    pub open spec fn view(&self) -> ParsedUrlView {
        ParsedUrlView {
            text: self.text@,
            scheme: self.scheme@,
            host: match self.host {
                UrlHost::Missing => HostView::Missing,
                UrlHost::Domain(d) => HostView::Domain(d@),
                UrlHost::Ip => HostView::Ip,
            },
        }
    }
}

pub open spec fn parsed_view(r: Option<ParsedUrl>) -> Option<ParsedUrlView> {
    match r {
        Some(u) => Some(u.view()),
        None => None,
    }
}

pub open spec fn opt_text(r: Option<String>) -> Option<Seq<char>> {
    match r {
        Some(s) => Some(s@),
        None => None,
    }
}

/// What `url::Url::parse` makes of a text: `None` when it is no address.
pub uninterp spec fn url_parse(s: Seq<char>) -> Option<ParsedUrlView>;

/// What `url::Url::set_scheme("http")` makes of the address parsed from a
/// text, serialised.
pub uninterp spec fn http_url(s: Seq<char>) -> Option<Seq<char>>;

/// What `url::Url::parse_with_params` makes of a base address and one
/// query pair, serialised.
pub uninterp spec fn url_with_query(base: Seq<char>, key: Seq<char>, value: Seq<char>) -> Option<Seq<char>>;

/// Relies on `url::Url::parse`, read back through `as_str`, `scheme` and
/// `host`.
#[verifier::external_body]
fn parse_url(s: &str) -> (r: Option<ParsedUrl>)
    ensures
        parsed_view(r) == url_parse(s@),
{
    url::Url::parse(s).ok().map(|u| ParsedUrl {
        text: u.as_str().to_string(),
        scheme: u.scheme().to_string(),
        host: match u.host() {
            None => UrlHost::Missing,
            Some(url::Host::Domain(d)) => UrlHost::Domain(d.to_string()),
            Some(_) => UrlHost::Ip,
        },
    })
}

/// Relies on `url::Url::set_scheme`: the address parsed from `s`, switched
/// to plain `http`.
#[verifier::external_body]
fn with_http_scheme(s: &str) -> (r: Option<String>)
    ensures
        opt_text(r) == http_url(s@),
{
    let mut u = url::Url::parse(s).ok()?;
    u.set_scheme("http").ok()?;
    Some(u.to_string())
}

/// Whether the form encoding keeps byte `b` as it is: ASCII letters and
/// digits and `*-._`.
pub open spec fn form_unchanged(b: u8) -> bool {
    b == 0x2a || b == 0x2d || b == 0x2e || b == 0x5f || (0x30 <= b <= 0x39) || (0x41 <= b <= 0x5a)
        || (0x61 <= b <= 0x7a)
}

/// One byte in the `application/x-www-form-urlencoded` encoding: kept, a
/// space as `+`, anything else as `%XX`.
pub open spec fn form_byte(b: u8) -> Seq<u8> {
    if form_unchanged(b) {
        seq![b]
    } else if b == 0x20 {
        seq![0x2bu8]
    } else {
        seq![0x25u8] + upper_hex(b)
    }
}

/// Every byte of `s` in turn, form-encoded by [`form_byte`].
pub open spec fn form_encoded(s: Seq<u8>) -> Seq<u8>
    decreases s.len(),
{
    if s.len() == 0 {
        Seq::empty()
    } else {
        form_encoded(s.drop_last()) + form_byte(s.last())
    }
}

/// The UTF-8 bytes of the search address for `input`: the search engine's
/// address, `?q=`, and the form-encoded text.
pub open spec fn search_bytes(input: Seq<char>) -> Seq<u8> {
    encode_utf8(SEARCH_ENGINE@ + "?q="@) + form_encoded(encode_utf8(input))
}

/// The search engine's address and its query key.
pub open spec fn is_search_query(base: Seq<char>, key: Seq<char>) -> bool {
    base == SEARCH_ENGINE@ && key == "q"@
}

/// The UTF-8 bytes of an optional text.
pub open spec fn opt_bytes(r: Option<String>) -> Option<Seq<u8>> {
    match r {
        Some(t) => Some(encode_utf8(t@)),
        None => None,
    }
}

/// Relies on `url::Url::parse_with_params`: `base` with the query pair
/// `key=value`, form-encoded. On the search engine's address, which has no
/// query of its own, that is the address, `?q=` and the encoded value.
#[verifier::external_body]
fn parse_with_query(base: &str, key: &str, value: &str) -> (r: Option<String>)
    ensures
        opt_text(r) == url_with_query(base@, key@, value@),
        is_search_query(base@, key@) ==> opt_bytes(r) == Some(search_bytes(value@)),
{
    url::Url::parse_with_params(base, &[(key, value)]).ok().map(|u| u.to_string())
}

/// Relies on `publicsuffix::Psl::suffix` and `Suffix::typ`: `None` when the
/// list knows no suffix of `host`, else whether the suffix found is a listed
/// (ICANN or private) one.
#[verifier::external_body]
fn listed_suffix(list: &publicsuffix::List, host: &str) -> (r: Option<bool>) {
    publicsuffix::Psl::suffix(list, host.as_bytes()).map(|s| s.typ().is_some())
}

/// Whether `c` is white space in the sense of Unicode's `White_Space`.
pub open spec fn is_ws(c: char) -> bool {
    ('\u{9}' <= c <= '\u{d}') || c == ' ' || c == '\u{85}' || c == '\u{a0}' || c == '\u{1680}'
        || ('\u{2000}' <= c <= '\u{200a}') || c == '\u{2028}' || c == '\u{2029}' || c == '\u{202f}'
        || c == '\u{205f}' || c == '\u{3000}'
}

/// `s` without leading and trailing white space.
pub open spec fn trim_ws(s: Seq<char>) -> Seq<char>
    decreases s.len(),
{
    if s.len() > 0 && is_ws(s[0]) {
        trim_ws(s.drop_first())
    } else if s.len() > 0 && is_ws(s.last()) {
        trim_ws(s.drop_last())
    } else {
        s
    }
}

/// Whether `c` is white space; see [`is_ws`].
fn is_ws_char(c: char) -> (r: bool)
    ensures
        r == is_ws(c),
{
    ('\u{9}' <= c && c <= '\u{d}') || c == ' ' || c == '\u{85}' || c == '\u{a0}' || c == '\u{1680}'
        || ('\u{2000}' <= c && c <= '\u{200a}') || c == '\u{2028}' || c == '\u{2029}' || c
        == '\u{202f}' || c == '\u{205f}' || c == '\u{3000}'
}

proof fn lemma_trim_front(s: Seq<char>, a: int)
    requires
        0 <= a <= s.len(),
        forall|i: int| 0 <= i < a ==> is_ws(#[trigger] s[i]),
    ensures
        trim_ws(s) == trim_ws(s.subrange(a, s.len() as int)),
    decreases a,
{
    if a == 0 {
        assert(s.subrange(0, s.len() as int) =~= s);
    } else {
        let d = s.drop_first();
        assert forall|i: int| 0 <= i < a - 1 implies is_ws(#[trigger] d[i]) by {
            assert(d[i] == s[i + 1]);
        }
        lemma_trim_front(d, a - 1);
        assert(d.subrange(a - 1, d.len() as int) =~= s.subrange(a, s.len() as int));
    }
}

proof fn lemma_trim_back(t: Seq<char>, b: int)
    requires
        0 < b <= t.len(),
        !is_ws(t[0]),
        !is_ws(t[b - 1]),
        forall|i: int| b <= i < t.len() ==> is_ws(#[trigger] t[i]),
    ensures
        trim_ws(t) == t.subrange(0, b),
    decreases t.len() - b,
{
    if b == t.len() {
        assert(t.subrange(0, b) =~= t);
    } else {
        let d = t.drop_last();
        assert(is_ws(t[t.len() - 1]));
        assert forall|i: int| b <= i < d.len() implies is_ws(#[trigger] d[i]) by {
            assert(d[i] == t[i]);
        }
        lemma_trim_back(d, b);
        assert(d.subrange(0, b) =~= t.subrange(0, b));
    }
}

/// `s` without leading and trailing white space, as `str::trim` gives it.
fn trim(s: &str) -> (r: &str)
    ensures
        r@ == trim_ws(s@),
{
    let n = s.unicode_len();
    let mut start: usize = 0;
    while start < n && is_ws_char(s.get_char(start))
        invariant
            n == s@.len(),
            start <= n,
            forall|i: int| 0 <= i < start ==> is_ws(#[trigger] s@[i]),
        decreases n - start,
    {
        start = start + 1;
    }
    proof {
        lemma_trim_front(s@, start as int);
    }
    if start == n {
        proof {
            assert(s@.subrange(n as int, n as int) =~= Seq::<char>::empty());
        }
        return s.substring_char(n, n);
    }
    let mut end: usize = n;
    while end > start + 1 && is_ws_char(s.get_char(end - 1))
        invariant
            n == s@.len(),
            start < end <= n,
            forall|i: int| end <= i < n ==> is_ws(#[trigger] s@[i]),
        decreases end,
    {
        end = end - 1;
    }
    proof {
        let t = s@.subrange(start as int, n as int);
        let b = end - start;
        assert(!is_ws(t[0]));
        assert forall|i: int| b <= i < t.len() implies is_ws(#[trigger] t[i]) by {
            assert(t[i] == s@[start + i]);
        }
        assert(!is_ws(t[b - 1]));
        lemma_trim_back(t, b as int);
        assert(t.subrange(0, b as int) =~= s@.subrange(start as int, end as int));
    }
    s.substring_char(start, end)
}

/// `c` in ASCII lower case.
pub open spec fn ascii_lower(c: char) -> char {
    if 'A' <= c <= 'Z' {
        (((c as u8) + 32) as u8) as char
    } else {
        c
    }
}

/// `a` and `b` are equal but for ASCII case.
pub open spec fn eq_ignore_ascii_case(a: Seq<char>, b: Seq<char>) -> bool {
    a.len() == b.len() && forall|i: int| 0 <= i < a.len() ==> ascii_lower(a[i]) == ascii_lower(b[i])
}

/// Whether the text names a path (holds a slash or a backslash).
pub open spec fn looks_like_path(s: Seq<char>) -> bool {
    s.contains('\\') || s.contains('/')
}

/// The schemes accepted as typed.
pub open spec fn allowed_scheme(s: Seq<char>) -> bool {
    s == "http"@ || s == "https"@ || s == "file"@ || s == "data"@ || s == "ftp"@
}

/// The search for `input`: the address whose UTF-8 bytes are
/// [`search_bytes`].
pub open spec fn search_for(input: Seq<char>) -> Option<Seq<char>> {
    Some(decode_utf8(search_bytes(input)))
}

/// What the address-bar text `keyword` leads to. `path_exists` tells
/// whether the trimmed text names an existing file. `suffix` is the public
/// suffix list's answer for the host (see [`parse_keyword`]): `None` when no
/// list is at hand.
pub open spec fn keyword_target(keyword: Seq<char>, path_exists: bool, suffix: Option<Option<bool>>) -> Option<Seq<char>> {
    let input = trim_ws(keyword);
    let https = "https://"@ + input;
    if input.len() == 0 {
        None
    } else if looks_like_path(input) && path_exists {
        match url_parse("file:///"@ + input) {
            Some(u) => Some(u.text),
            None => None,
        }
    } else if url_parse(input) is Some && allowed_scheme(url_parse(input)->0.scheme) {
        Some(url_parse(input)->0.text)
    } else {
        match url_parse(https) {
            None => search_for(input),
            Some(u) => match u.host {
                HostView::Missing => search_for(input),
                HostView::Ip => http_url(https),
                HostView::Domain(h) => if eq_ignore_ascii_case(h, "localhost"@) {
                    Some(u.text)
                } else {
                    match suffix {
                        Some(Some(false)) => search_for(input),
                        _ => Some(u.text),
                    }
                },
            },
        }
    }
}

fn same(a: &str, b: &str) -> (r: bool)
    ensures
        r == (a@ == b@),
{
    String::from_str(a) == String::from_str(b)
}

fn contains_char(s: &str, c: char) -> (r: bool)
    ensures
        r == s@.contains(c),
{
    let n = s.unicode_len();
    let mut i: usize = 0;
    while i < n
        invariant
            n == s@.len(),
            i <= n,
            forall|j: int| 0 <= j < i ==> s@[j] != c,
        decreases n - i,
    {
        if s.get_char(i) == c {
            return true;
        }
        i = i + 1;
    }
    false
}

fn lower(c: char) -> (r: char)
    ensures
        r == ascii_lower(c),
{
    if 'A' <= c && c <= 'Z' {
        ((c as u8) + 32) as char
    } else {
        c
    }
}

fn same_ignore_ascii_case(a: &str, b: &str) -> (r: bool)
    ensures
        r == eq_ignore_ascii_case(a@, b@),
{
    let n = a.unicode_len();
    if n != b.unicode_len() {
        return false;
    }
    let mut i: usize = 0;
    while i < n
        invariant
            n == a@.len(),
            n == b@.len(),
            i <= n,
            forall|j: int| 0 <= j < i ==> ascii_lower(a@[j]) == ascii_lower(b@[j]),
        decreases n - i,
    {
        if lower(a.get_char(i)) != lower(b.get_char(i)) {
            return false;
        }
        i = i + 1;
    }
    true
}

fn is_allowed_scheme(s: &str) -> (r: bool)
    ensures
        r == allowed_scheme(s@),
{
    same(s, "http") || same(s, "https") || same(s, "file") || same(s, "data") || same(s, "ftp")
}

fn search(input: &str) -> (r: Option<String>)
    ensures
        opt_text(r) == search_for(input@),
{
    let r = parse_with_query(SEARCH_ENGINE, "q", input);
    proof {
        reveal_strlit("q");
        if let Some(t) = &r {
            encode_utf8_decode_utf8(t@);
        }
    }
    r
}

/// The trimmed text, when it names a path that the host should look for on
/// disk before [`parse_keyword`] decides.
pub fn file_candidate(keyword: &str) -> (r: Option<String>)
    ensures
        opt_text(r) == if trim_ws(keyword@).len() > 0 && looks_like_path(trim_ws(keyword@)) {
            Some(trim_ws(keyword@))
        } else {
            None
        },
{
    let input = trim(keyword);
    if !input.is_empty() && (contains_char(input, '\\') || contains_char(input, '/')) {
        Some(String::from_str(input))
    } else {
        None
    }
}

/// What the address-bar text `keyword` leads to, given whether it names an
/// existing file (`path_exists`, see [`file_candidate`]): `None` for blank
/// text; a `file:` address for an existing path; the text itself when it is
/// an address with an accepted scheme; else the text as an `https` address
/// when its host is an IP address (then as `http`), `localhost`, or a
/// domain whose suffix the public suffix list knows as listed or not at all
/// (any domain when no list is given); else a search for the text.
pub fn parse_keyword(public_suffix: Option<&publicsuffix::List>, keyword: &str, path_exists: bool) -> (r: Option<String>)
    ensures
        public_suffix is None ==> opt_text(r) == keyword_target(keyword@, path_exists, None),
        public_suffix is Some ==> exists|a: Option<bool>| opt_text(r) == keyword_target(keyword@, path_exists, Some(a)),
{
    let (r, answer) = decide(public_suffix, keyword, path_exists);
    proof {
        if public_suffix is Some {
            assert(opt_text(r) == keyword_target(keyword@, path_exists, Some(answer@)));
        }
    }
    r
}

/// [`parse_keyword`], with the public suffix list's answer beside it.
fn decide(public_suffix: Option<&publicsuffix::List>, keyword: &str, path_exists: bool) -> (r: (
    Option<String>,
    Ghost<Option<bool>>,
))
    ensures
        public_suffix is None ==> opt_text(r.0) == keyword_target(keyword@, path_exists, None),
        public_suffix is Some ==> opt_text(r.0) == keyword_target(keyword@, path_exists, Some(r.1@)),
{
    let input = trim(keyword);
    if input.is_empty() {
        return (None, Ghost(None));
    }
    if (contains_char(input, '\\') || contains_char(input, '/')) && path_exists {
        let mut f = String::from_str("file:///");
        f.append(input);
        return match parse_url(f.as_str()) {
            Some(u) => (Some(u.text), Ghost(None)),
            None => (None, Ghost(None)),
        };
    }
    if let Some(u) = parse_url(input) {
        if is_allowed_scheme(u.scheme.as_str()) {
            return (Some(u.text), Ghost(None));
        }
    }
    let mut https = String::from_str("https://");
    https.append(input);
    let u = match parse_url(https.as_str()) {
        Some(u) => u,
        None => return (search(input), Ghost(None)),
    };
    match &u.host {
        UrlHost::Missing => (search(input), Ghost(None)),
        UrlHost::Ip => (with_http_scheme(https.as_str()), Ghost(None)),
        UrlHost::Domain(host) => {
            if same_ignore_ascii_case(host.as_str(), "localhost") {
                return (Some(u.text), Ghost(None));
            }
            match public_suffix {
                Some(list) => {
                    let a = listed_suffix(list, host.as_str());
                    match a {
                        Some(false) => (search(input), Ghost(a)),
                        _ => (Some(u.text), Ghost(a)),
                    }
                },
                None => (Some(u.text), Ghost(None)),
            }
        },
    }
}

} // verus!
