//! Application-layer heuristics on a fetched page: the `<title>`, whether it
//! names the brand, favicon links and credential-harvesting markers.
use vstd::prelude::*;
use vstd::utf8::*;
use crate::text::{
    bytes_match_at, chars_of, contains_bytes, contains_chars, lemma_first_occurrence_from, find_bytes_from, first_occurrence_from, lowercase, lowercase_of,
    occurs_at, occurs_in, push_range, string_of, trim_chars, trimmed,
};
use crate::typo::first_index_of;
use vstd::slice::slice_subrange;

verus! {

/// What the page heuristics found, before the similarity scores (which are
/// floating point and computed outside this library) are added.
pub struct PageFingerprint {
    /// HTTP status code of the response
    pub status: u16,
    /// The trimmed `<title>` text, when the page has one
    pub title: Option<String>,
    /// The title, lowercased
    pub title_lower: Option<String>,
    /// The brand label: the brand domain up to its first `.`, lowercased
    pub brand: String,
    /// The lowercased title contains the brand label
    pub title_mentions_brand: bool,
    /// The page links an icon
    pub has_favicon: bool,
    /// An icon link of the page names the brand domain
    pub favicon_from_brand: bool,
    /// The page carries a credential-harvesting marker
    pub has_login_form: bool,
    /// The whole page, lowercased
    pub text_lower: String,
}

/// The outcome of fingerprinting one page.
pub struct HttpInfo {
    pub status: u16,
    pub title: Option<String>,
    pub has_favicon: bool,
    /// An icon link names the brand domain (the icon is served from the
    /// brand's own hosts)
    pub favicon_from_brand: bool,
    pub has_login_form: bool,
    pub brand_title_match: bool,
}

/// UTF-8 bytes of a string literal.
pub open spec fn lit(s: &str) -> Seq<u8> {
    encode_utf8(s@)
}

/// The brand label of a brand domain: everything before its first `.`,
/// lowercased.
pub open spec fn brand_label_of(brand_domain: Seq<char>) -> Seq<char> {
    lowercase_of(brand_domain.take(first_index_of(brand_domain, '.')))
}

/// Byte position of `<title>` in the lowercased page.
pub open spec fn title_start(lower: Seq<u8>) -> Option<int> {
    first_occurrence_from(lower, lit("<title>"), 0)
}

/// Byte position of the first `</title>` at or after the opening tag.
pub open spec fn title_end(lower: Seq<u8>) -> Option<int> {
    match title_start(lower) {
        Some(s) => first_occurrence_from(lower, lit("</title>"), s),
        None => None,
    }
}

/// The title is cut from the page itself at the byte positions found in
/// the lowercased page; this holds when those positions are in range and
/// on character boundaries of the page itself.
pub open spec fn title_cut_ok(text: Seq<char>) -> bool {
    let lower = encode_utf8(lowercase_of(text));
    let bytes = encode_utf8(text);
    match (title_start(lower), title_end(lower)) {
        (Some(s), Some(e)) => s + 7 <= e <= bytes.len() && is_char_boundary(bytes, s + 7)
            && is_char_boundary(bytes, e),
        _ => true,
    }
}

/// The trimmed title of a page, when it has an opening and a closing tag.
pub open spec fn title_of(text: Seq<char>) -> Option<Seq<char>> {
    let lower = encode_utf8(lowercase_of(text));
    let bytes = encode_utf8(text);
    match (title_start(lower), title_end(lower)) {
        (Some(s), Some(e)) => Some(trimmed(decode_utf8(bytes.subrange(s + 7, e)))),
        _ => None,
    }
}

/// The page links an icon.
pub open spec fn favicon_marker(lower: Seq<u8>) -> bool {
    occurs_in(lower, lit("<link rel=\"icon\"")) || occurs_in(lower, lit("<link rel=\"shortcut icon\""))
}

/// An icon link (`<link rel="icon"` or `<link rel="shortcut icon"`) starts
/// at byte `i`.
pub open spec fn icon_opener_at(lower: Seq<u8>, i: int) -> bool {
    occurs_at(lower, lit("<link rel=\"icon\""), i) || occurs_at(
        lower,
        lit("<link rel=\"shortcut icon\""),
        i,
    )
}

/// End of the tag starting at `i`: the first `>` at or after `i`, or the end
/// of the page.
pub open spec fn tag_end(lower: Seq<u8>, i: int) -> int {
    match first_occurrence_from(lower, lit(">"), i) {
        Some(e) => e,
        None => lower.len() as int,
    }
}

/// Some icon link of the page names `brand` (the lowercased brand domain)
/// inside its tag, as in `<link rel="icon" href="https://cdn.brand.com/f.ico">`.
pub open spec fn favicon_from_brand(lower: Seq<u8>, brand: Seq<u8>) -> bool {
    exists|i: int|
        0 <= i < lower.len() && icon_opener_at(lower, i) && occurs_in(
            lower.subrange(i, tag_end(lower, i)),
            brand,
        )
}

/// The page carries a password field, a form, or a login/sign-in/verify wording.
pub open spec fn login_marker(lower: Seq<u8>) -> bool {
    occurs_in(lower, lit("<input type=\"password\"")) || occurs_in(lower, lit("<form action="))
        || occurs_in(lower, lit("login")) || occurs_in(lower, lit("signin")) || occurs_in(
        lower,
        lit("verify"),
    )
}

/// What `fingerprint_page` finds on a page.
pub open spec fn fingerprint_matches(
    fp: PageFingerprint,
    status: u16,
    text: Seq<char>,
    brand_domain: Seq<char>,
) -> bool {
    let lower = lowercase_of(text);
    let lower_bytes = encode_utf8(lower);
    let brand = brand_label_of(brand_domain);
    &&& fp.status == status
    &&& fp.text_lower@ == lower
    &&& fp.brand@ == brand
    &&& fp.has_favicon == favicon_marker(lower_bytes)
    &&& fp.favicon_from_brand == favicon_from_brand(lower_bytes, encode_utf8(lowercase_of(brand_domain)))
    &&& fp.has_login_form == login_marker(lower_bytes)
    &&& match title_of(text) {
        Some(t) => {
            &&& fp.title matches Some(ft) && ft@ == t
            &&& fp.title_lower matches Some(fl) && fl@ == lowercase_of(t)
            &&& fp.title_mentions_brand == occurs_in(lowercase_of(t), brand)
        },
        None => {
            &&& fp.title is None
            &&& fp.title_lower is None
            &&& !fp.title_mentions_brand
        },
    }
}

proof fn lemma_tag_lengths()
    ensures
        lit("<title>").len() == 7,
{
    reveal_strlit("<title>");
    assert(is_ascii_chars("<title>"@));
    is_ascii_chars_encode_utf8("<title>"@);
}

/// The brand label: the brand domain up to its first `.`, lowercased.
pub fn brand_label(brand_domain: &str) -> (r: String)
    ensures
        r@ == brand_label_of(brand_domain@),
{
    let chars = chars_of(brand_domain);
    let mut i: usize = 0;
    while i < chars.len() && chars[i] != '.'
        invariant
            chars@ == brand_domain@,
            i <= chars@.len(),
            forall|j: int| 0 <= j < i ==> chars@[j] != '.',
        decreases chars@.len() - i,
    {
        i = i + 1;
    }
    proof {
        lemma_first_index_is(brand_domain@, '.', i as int);
    }
    let mut head = String::new();
    push_range(&mut head, &chars, 0, i);
    assert(head@ =~= brand_domain@.take(i as int));
    lowercase(head.as_str())
}

proof fn lemma_first_index_is(s: Seq<char>, c: char, i: int)
    requires
        0 <= i <= s.len(),
        forall|j: int| 0 <= j < i ==> s[j] != c,
        i < s.len() ==> s[i] == c,
    ensures
        first_index_of(s, c) == i,
    decreases i,
{
    if i > 0 {
        lemma_first_index_is(s.drop_first(), c, i - 1);
    }
}

/// The string slice made of the bytes `text[a..b]`.
fn byte_slice(text: &str, a: usize, b: usize) -> (r: &str)
    requires
        a <= b <= encode_utf8(text@).len(),
        is_char_boundary(encode_utf8(text@), a as int),
        is_char_boundary(encode_utf8(text@), b as int),
    ensures
        r@ == decode_utf8(encode_utf8(text@).subrange(a as int, b as int)),
{
    let ghost bytes = encode_utf8(text@);
    proof {
        encode_utf8_valid_utf8(text@);
        valid_utf8_split(bytes, a as int);
    }
    let (_, rest) = text.split_at(a);
    let ghost rb = encode_utf8(rest@);
    assert(rb =~= bytes.subrange(a as int, bytes.len() as int));
    proof {
        if b < bytes.len() {
            is_char_boundary_iff_not_is_continuation_byte(bytes, b as int);
            is_char_boundary_iff_not_is_continuation_byte(rb, b - a);
            assert(rb[b - a] == bytes[b as int]);
        } else {
            is_char_boundary_start_end_of_seq(rb);
        }
    }
    let (mid, _) = rest.split_at(b - a);
    assert(encode_utf8(mid@) =~= bytes.subrange(a as int, b as int));
    proof {
        encode_utf8_decode_utf8(mid@);
    }
    mid
}

/// Whether an icon link of the lowercased page names `brand` inside its tag.
fn brand_favicon(lower: &[u8], brand: &[u8]) -> (b: bool)
    ensures
        b == favicon_from_brand(lower@, brand@),
{
    let icon = "<link rel=\"icon\"".as_bytes();
    let shortcut = "<link rel=\"shortcut icon\"".as_bytes();
    let gt = ">".as_bytes();
    let n = lower.len();
    let mut i: usize = 0;
    while i < n
        invariant
            n == lower@.len(),
            icon@ == lit("<link rel=\"icon\""),
            shortcut@ == lit("<link rel=\"shortcut icon\""),
            gt@ == lit(">"),
            forall|j: int|
                0 <= j < i ==> !(icon_opener_at(lower@, j) && occurs_in(
                    lower@.subrange(j, tag_end(lower@, j)),
                    brand@,
                )),
        decreases n - i,
    {
        let at_icon = icon.len() <= n && i <= n - icon.len() && bytes_match_at(lower, icon, i);
        let at_shortcut = shortcut.len() <= n && i <= n - shortcut.len() && bytes_match_at(
            lower,
            shortcut,
            i,
        );
        assert(at_icon || at_shortcut <==> icon_opener_at(lower@, i as int));
        if at_icon || at_shortcut {
            let end = match find_bytes_from(lower, gt, i) {
                Some(e) => {
                    proof {
                        lemma_first_occurrence_from(lower@, gt@, i as int);
                    }
                    e
                },
                None => n,
            };
            assert(end == tag_end(lower@, i as int));
            let tag = slice_subrange(lower, i, end);
            if contains_bytes(tag, brand) {
                return true;
            }
        }
        i = i + 1;
    }
    false
}

/// Page heuristics on a page whose lowercase has been computed.
pub fn fingerprint_lowered(status: u16, text: &str, text_lower: String, brand_domain: &str) -> (fp:
    PageFingerprint)
    requires
        text_lower@ == lowercase_of(text@),
        title_cut_ok(text@),
    ensures
        fingerprint_matches(fp, status, text@, brand_domain@),
{
    let lower: &[u8] = text_lower.as_str().as_bytes();
    let brand = brand_label(brand_domain);
    let open = "<title>".as_bytes();
    let close = "</title>".as_bytes();
    let mut title: Option<String> = None;
    let mut title_lower: Option<String> = None;
    let mut title_mentions_brand = false;
    proof {
        lemma_tag_lengths();
    }
    match find_bytes_from(lower, open, 0) {
        Some(start) => {
            proof {
                lemma_first_occurrence_from(lower@, open@, 0);
            }
            match find_bytes_from(lower, close, start) {
                Some(end) => {
                    let raw = byte_slice(text, start + 7, end);
                    let trimmed_chars = trim_chars(&chars_of(raw));
                    let extracted = string_of(&trimmed_chars);
                    let extracted_lower = lowercase(extracted.as_str());
                    title_mentions_brand = contains_chars(
                        &chars_of(extracted_lower.as_str()),
                        &chars_of(brand.as_str()),
                    );
                    title = Some(extracted);
                    title_lower = Some(extracted_lower);
                },
                None => {},
            }
        },
        None => {},
    }
    let has_favicon = contains_bytes(lower, "<link rel=\"icon\"".as_bytes()) || contains_bytes(
        lower,
        "<link rel=\"shortcut icon\"".as_bytes(),
    );
    let brand_domain_lower = lowercase(brand_domain);
    let favicon_from_brand = brand_favicon(lower, brand_domain_lower.as_str().as_bytes());
    let has_login_form = contains_bytes(lower, "<input type=\"password\"".as_bytes())
        || contains_bytes(lower, "<form action=".as_bytes()) || contains_bytes(
        lower,
        "login".as_bytes(),
    ) || contains_bytes(lower, "signin".as_bytes()) || contains_bytes(lower, "verify".as_bytes());
    PageFingerprint {
        status,
        title,
        title_lower,
        brand,
        title_mentions_brand,
        has_favicon,
        favicon_from_brand,
        has_login_form,
        text_lower,
    }
}

/// The page heuristics: the trimmed `<title>` (cut from the page at the
/// byte positions of the tags in its lowercase), whether its lowercase
/// contains the brand label, favicon links and credential-harvesting
/// markers.
pub fn fingerprint_page(status: u16, text: &str, brand_domain: &str) -> (fp: PageFingerprint)
    requires
        title_cut_ok(text@),
    ensures
        fingerprint_matches(fp, status, text@, brand_domain@),
{
    let text_lower = lowercase(text);
    fingerprint_lowered(status, text, text_lower, brand_domain)
}

/// `fingerprint_page` where the title can be cut from the page, `None`
/// where it cannot (the tag positions found in the lowercased page fall
/// outside the page or inside a character).
pub fn fingerprint_page_checked(status: u16, text: &str, brand_domain: &str) -> (r: Option<
    PageFingerprint,
>)
    ensures
        r is Some <==> title_cut_ok(text@),
        r matches Some(fp) ==> fingerprint_matches(fp, status, text@, brand_domain@),
{
    let text_lower = lowercase(text);
    let lower: &[u8] = text_lower.as_str().as_bytes();
    let bytes: &[u8] = text.as_bytes();
    proof {
        lemma_tag_lengths();
    }
    let open = "<title>".as_bytes();
    let close = "</title>".as_bytes();
    let lower_len = lower.len();
    let ok = match find_bytes_from(lower, open, 0) {
        Some(start) => {
            proof {
                lemma_first_occurrence_from(lower@, open@, 0);
            }
            assert(start + 7 <= lower_len);
            match find_bytes_from(lower, close, start) {
            Some(end) => start + 7 <= end && end <= bytes.len() && text.is_char_boundary(start + 7)
                && text.is_char_boundary(end),
            None => true,
        }},
        None => true,
    };
    if ok {
        Some(fingerprint_page(status, text, brand_domain))
    } else {
        None
    }
}

/// The HTTP outcome of a page: `brand_title_match` holds when the page has
/// a title and either its lowercase contains the brand label or
/// `title_close_to_brand` (the outside similarity test on the lowercased
/// title and the brand label) holds.
pub fn http_info(fp: PageFingerprint, title_close_to_brand: bool) -> (h: HttpInfo)
    ensures
        h.status == fp.status,
        h.title == fp.title,
        h.has_favicon == fp.has_favicon,
        h.favicon_from_brand == fp.favicon_from_brand,
        h.has_login_form == fp.has_login_form,
        h.brand_title_match == (fp.title is Some && (fp.title_mentions_brand
            || title_close_to_brand)),
{
    let brand_title_match = fp.title.is_some() && (fp.title_mentions_brand
        || title_close_to_brand);
    HttpInfo {
        status: fp.status,
        title: fp.title,
        has_favicon: fp.has_favicon,
        favicon_from_brand: fp.favicon_from_brand,
        has_login_form: fp.has_login_form,
        brand_title_match,
    }
}

/// A page whose lowercase contains any of the wordings "login", "signin",
/// "verify", `<form action=` or `<input type="password"`, at any position,
/// is marked as carrying a credential-harvesting input.
pub proof fn law_login_wording_marks_credentials(
    fp: PageFingerprint,
    status: u16,
    text: Seq<char>,
    brand_domain: Seq<char>,
    word: Seq<char>,
    p: int,
)
    requires
        fingerprint_matches(fp, status, text, brand_domain),
        word == "login"@ || word == "signin"@ || word == "verify"@ || word == "<form action="@
            || word == "<input type=\"password\""@,
        ({
            let lower = encode_utf8(lowercase_of(text));
            let w = encode_utf8(word);
            0 <= p && p + w.len() <= lower.len() && lower.subrange(p, p + w.len()) == w
        }),
    ensures
        fp.has_login_form,
{
    let lower = encode_utf8(lowercase_of(text));
    assert(occurs_at(lower, encode_utf8(word), p));
    assert(occurs_in(lower, encode_utf8(word)));
}

/// The title names the brand when its lowercase contains the brand label at
/// any position, and only then.
pub proof fn law_brand_anywhere_in_title(
    fp: PageFingerprint,
    status: u16,
    text: Seq<char>,
    brand_domain: Seq<char>,
)
    requires
        fingerprint_matches(fp, status, text, brand_domain),
    ensures
        fp.title_mentions_brand <==> (title_of(text) matches Some(t) && exists|p: int|
            0 <= p && p + brand_label_of(brand_domain).len() <= lowercase_of(t).len()
                && #[trigger] lowercase_of(t).subrange(p, p + brand_label_of(brand_domain).len())
                == brand_label_of(brand_domain)),
{
    match title_of(text) {
        Some(t) => {
            let tl = lowercase_of(t);
            let b = brand_label_of(brand_domain);
            if fp.title_mentions_brand {
                let q = choose|q: int| occurs_at(tl, b, q);
                assert(0 <= q && q + b.len() <= tl.len() && tl.subrange(q, q + b.len()) == b);
            }
            if exists|p: int|
                0 <= p && p + b.len() <= tl.len() && #[trigger] tl.subrange(p, p + b.len()) == b {
                let q = choose|p: int|
                    0 <= p && p + b.len() <= tl.len() && #[trigger] tl.subrange(p, p + b.len()) == b;
                assert(occurs_at(tl, b, q));
            }
        },
        None => {},
    }
}

/// A page is marked as carrying a credential-harvesting input only when its
/// lowercase contains one of the wordings "login", "signin", "verify",
/// `<form action=` or `<input type="password"`.
pub proof fn law_credentials_need_wording(
    fp: PageFingerprint,
    status: u16,
    text: Seq<char>,
    brand_domain: Seq<char>,
)
    requires
        fingerprint_matches(fp, status, text, brand_domain),
        fp.has_login_form,
    ensures
        exists|word: Seq<char>, p: int|
            (word == "login"@ || word == "signin"@ || word == "verify"@ || word == "<form action="@
                || word == "<input type=\"password\""@) && 0 <= p && p + encode_utf8(word).len()
                <= encode_utf8(lowercase_of(text)).len() && #[trigger] encode_utf8(
                lowercase_of(text),
            ).subrange(p, p + encode_utf8(word).len()) == encode_utf8(word),
{
    let lower = encode_utf8(lowercase_of(text));
    let words = seq!["<input type=\"password\""@, "<form action="@, "login"@, "signin"@, "verify"@];
    let k: int = if occurs_in(lower, lit("<input type=\"password\"")) {
        0
    } else if occurs_in(lower, lit("<form action=")) {
        1
    } else if occurs_in(lower, lit("login")) {
        2
    } else if occurs_in(lower, lit("signin")) {
        3
    } else {
        4
    };
    let word = words[k];
    assert(occurs_in(lower, encode_utf8(word)));
    let p = choose|p: int| occurs_at(lower, encode_utf8(word), p);
    assert(lower.subrange(p, p + encode_utf8(word).len()) == encode_utf8(word));
}

} // verus!
