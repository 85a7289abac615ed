//! The fixed tables the permutation engine draws from: visual confusables,
//! alternative top-level domains, phishing subdomain prefixes and QWERTY
//! neighbours.
use vstd::prelude::*;

verus! {

/// Views of a sequence of string slices.
pub open spec fn str_views(v: Seq<&str>) -> Seq<Seq<char>> {
    v.map_values(|s: &str| s@)
}

// ─── Homoglyphs ──────────────────────────────────────────────────────────────

/// The characters that have visual confusables, in table order.
pub open spec fn homoglyph_keys() -> Seq<char> {
    seq![
        'a', 'b', 'c', 'd', 'e', 'f', 'g', 'h', 'i', 'j', 'k', 'l', 'm', 'n', 'o', 'p', 'r',
        's', 't', 'u', 'v', 'w', 'x', 'y', 'z', '0', '1',
    ]
}

/// The characters that have visual confusables, in table order.
pub fn homoglyph_key_list() -> (r: Vec<char>)
    ensures
        r@ == homoglyph_keys(),
{
    let r = vec![
        'a', 'b', 'c', 'd', 'e', 'f', 'g', 'h', 'i', 'j', 'k', 'l', 'm', 'n', 'o', 'p', 'r',
        's', 't', 'u', 'v', 'w', 'x', 'y', 'z', '0', '1',
    ];
    assert(r@ =~= homoglyph_keys());
    r
}

/// The visual confusables of a character (empty when it has none): accented
/// Latin letters, Cyrillic look-alikes (U+0430, U+0435, U+0456, U+043E,
/// U+041E), and ASCII look-alikes such as `rn` for `m` or `0` for `o`.
pub open spec fn homoglyphs_of(c: char) -> Seq<Seq<char>> {
    match c {
        'a' => seq![
            "\u{e0}"@, "\u{e1}"@, "\u{e2}"@, "\u{e4}"@, "\u{e5}"@, "\u{105}"@, "\u{101}"@,
            "\u{251}"@, "\u{430}"@,
        ],
        'b' => seq!["\u{1e03}"@, "\u{180}"@, "\u{253}"@],
        'c' => seq!["\u{107}"@, "\u{10d}"@, "\u{e7}"@, "\u{109}"@, "\u{10b}"@],
        'd' => seq!["\u{10f}"@, "\u{111}"@, "\u{1e0b}"@],
        'e' => seq!["\u{e8}"@, "\u{e9}"@, "\u{ea}"@, "\u{eb}"@, "\u{119}"@, "\u{113}"@, "\u{435}"@],
        'f' => seq!["\u{192}"@],
        'g' => seq!["\u{11d}"@, "\u{11f}"@, "\u{121}"@, "\u{123}"@],
        'h' => seq!["\u{125}"@, "\u{127}"@],
        'i' => seq![
            "\u{ec}"@, "\u{ed}"@, "\u{ee}"@, "\u{ef}"@, "\u{12f}"@, "\u{12b}"@, "\u{131}"@,
            "\u{456}"@,
        ],
        'j' => seq!["\u{135}"@],
        'k' => seq!["\u{137}"@, "\u{138}"@],
        'l' => seq!["\u{13a}"@, "\u{13c}"@, "\u{13e}"@, "\u{142}"@, "\u{1e37}"@, "1"@],
        'm' => seq!["rn"@, "\u{1e41}"@],
        'n' => seq!["\u{f1}"@, "\u{144}"@, "\u{146}"@, "\u{148}"@],
        'o' => seq![
            "\u{f2}"@, "\u{f3}"@, "\u{f4}"@, "\u{f5}"@, "\u{f6}"@, "\u{f8}"@, "\u{14d}"@,
            "\u{43e}"@, "0"@,
        ],
        'p' => seq!["\u{1a5}"@, "\u{1e57}"@],
        'r' => seq!["\u{155}"@, "\u{157}"@, "\u{159}"@],
        's' => seq!["\u{15b}"@, "\u{15d}"@, "\u{15f}"@, "\u{161}"@, "\u{1e61}"@, "$"@],
        't' => seq!["\u{165}"@, "\u{163}"@, "\u{1e6b}"@],
        'u' => seq!["\u{f9}"@, "\u{fa}"@, "\u{fb}"@, "\u{fc}"@, "\u{16f}"@, "\u{16b}"@, "\u{3c5}"@],
        'v' => seq!["\u{1e7f}"@, "\u{28b}"@],
        'w' => seq!["\u{175}"@, "\u{1e87}"@, "vv"@],
        'x' => seq!["\u{1e8b}"@],
        'y' => seq!["\u{fd}"@, "\u{ff}"@, "\u{177}"@],
        'z' => seq!["\u{17a}"@, "\u{17c}"@, "\u{17e}"@],
        '0' => seq!["o"@, "\u{41e}"@],
        '1' => seq!["l"@, "I"@, "i"@],
        _ => seq![],
    }
}

/// The visual confusables of a character (empty when it has none).
pub fn homoglyph_list(c: char) -> (r: Vec<&'static str>)
    ensures
        str_views(r@) == homoglyphs_of(c),
{
    let r: Vec<&'static str> = match c {
        'a' => vec![
            "\u{e0}", "\u{e1}", "\u{e2}", "\u{e4}", "\u{e5}", "\u{105}", "\u{101}", "\u{251}",
            "\u{430}",
        ],
        'b' => vec!["\u{1e03}", "\u{180}", "\u{253}"],
        'c' => vec!["\u{107}", "\u{10d}", "\u{e7}", "\u{109}", "\u{10b}"],
        'd' => vec!["\u{10f}", "\u{111}", "\u{1e0b}"],
        'e' => vec!["\u{e8}", "\u{e9}", "\u{ea}", "\u{eb}", "\u{119}", "\u{113}", "\u{435}"],
        'f' => vec!["\u{192}"],
        'g' => vec!["\u{11d}", "\u{11f}", "\u{121}", "\u{123}"],
        'h' => vec!["\u{125}", "\u{127}"],
        'i' => vec![
            "\u{ec}", "\u{ed}", "\u{ee}", "\u{ef}", "\u{12f}", "\u{12b}", "\u{131}", "\u{456}",
        ],
        'j' => vec!["\u{135}"],
        'k' => vec!["\u{137}", "\u{138}"],
        'l' => vec!["\u{13a}", "\u{13c}", "\u{13e}", "\u{142}", "\u{1e37}", "1"],
        'm' => vec!["rn", "\u{1e41}"],
        'n' => vec!["\u{f1}", "\u{144}", "\u{146}", "\u{148}"],
        'o' => vec![
            "\u{f2}", "\u{f3}", "\u{f4}", "\u{f5}", "\u{f6}", "\u{f8}", "\u{14d}", "\u{43e}",
            "0",
        ],
        'p' => vec!["\u{1a5}", "\u{1e57}"],
        'r' => vec!["\u{155}", "\u{157}", "\u{159}"],
        's' => vec!["\u{15b}", "\u{15d}", "\u{15f}", "\u{161}", "\u{1e61}", "$"],
        't' => vec!["\u{165}", "\u{163}", "\u{1e6b}"],
        'u' => vec!["\u{f9}", "\u{fa}", "\u{fb}", "\u{fc}", "\u{16f}", "\u{16b}", "\u{3c5}"],
        'v' => vec!["\u{1e7f}", "\u{28b}"],
        'w' => vec!["\u{175}", "\u{1e87}", "vv"],
        'x' => vec!["\u{1e8b}"],
        'y' => vec!["\u{fd}", "\u{ff}", "\u{177}"],
        'z' => vec!["\u{17a}", "\u{17c}", "\u{17e}"],
        '0' => vec!["o", "\u{41e}"],
        '1' => vec!["l", "I", "i"],
        _ => vec![],
    };
    assert(str_views(r@) =~= homoglyphs_of(c));
    r
}

// ─── Top-level domains ───────────────────────────────────────────────────────

/// Common top-level domains tried as replacements, in table order.
pub open spec fn tld_table() -> Seq<Seq<char>> {
    seq![
        "com"@, "net"@, "org"@, "io"@, "co"@, "info"@, "biz"@, "app"@, "dev"@, "ai"@, "cloud"@,
        "security"@, "tech"@, "online"@, "site"@, "web"@, "live"@, "store"@, "shop"@, "co.uk"@,
        "com.br"@, "de"@, "fr"@, "ru"@, "cn"@, "in"@,
    ]
}

/// Common top-level domains tried as replacements, in table order.
pub fn tld_list() -> (r: Vec<&'static str>)
    ensures
        str_views(r@) == tld_table(),
{
    let r: Vec<&'static str> = vec![
        "com", "net", "org", "io", "co", "info", "biz", "app", "dev", "ai", "cloud",
        "security", "tech", "online", "site", "web", "live", "store", "shop", "co.uk",
        "com.br", "de", "fr", "ru", "cn", "in",
    ];
    assert(str_views(r@) =~= tld_table());
    r
}

// ─── Subdomain prefixes ──────────────────────────────────────────────────────

/// Subdomain prefixes common in brand impersonation, in table order.
pub open spec fn prefix_table() -> Seq<Seq<char>> {
    seq![
        "secure"@, "login"@, "auth"@, "account"@, "support"@, "help"@, "portal"@, "my"@,
        "web"@, "mail"@, "api"@, "app"@, "admin"@, "signin"@, "verify"@, "confirm"@, "update"@,
        "service"@,
    ]
}

/// Subdomain prefixes common in brand impersonation, in table order.
pub fn prefix_list() -> (r: Vec<&'static str>)
    ensures
        str_views(r@) == prefix_table(),
{
    let r: Vec<&'static str> = vec![
        "secure", "login", "auth", "account", "support", "help", "portal", "my", "web", "mail",
        "api", "app", "admin", "signin", "verify", "confirm", "update", "service",
    ];
    assert(str_views(r@) =~= prefix_table());
    r
}

// ─── QWERTY neighbours ───────────────────────────────────────────────────────

/// The keys next to a letter on a QWERTY keyboard (empty for other characters).
pub open spec fn keyboard_neighbours(c: char) -> Seq<char> {
    match c {
        'a' => seq!['q', 'w', 's', 'z'],
        'b' => seq!['v', 'g', 'h', 'n'],
        'c' => seq!['x', 'd', 'f', 'v'],
        'd' => seq!['s', 'e', 'f', 'r', 'c', 'x'],
        'e' => seq!['w', 'r', 's', 'd'],
        'f' => seq!['d', 'r', 'g', 't', 'v', 'c'],
        'g' => seq!['f', 't', 'h', 'y', 'v', 'b'],
        'h' => seq!['g', 'y', 'j', 'u', 'b', 'n'],
        'i' => seq!['u', 'o', 'j', 'k'],
        'j' => seq!['h', 'u', 'k', 'i', 'n', 'm'],
        'k' => seq!['j', 'i', 'l', 'o', 'm'],
        'l' => seq!['k', 'o', 'p'],
        'm' => seq!['n', 'j', 'k'],
        'n' => seq!['b', 'h', 'j', 'm'],
        'o' => seq!['i', 'p', 'k', 'l'],
        'p' => seq!['o', 'l'],
        'q' => seq!['w', 'a'],
        'r' => seq!['e', 't', 'd', 'f'],
        's' => seq!['a', 'w', 'd', 'x', 'z'],
        't' => seq!['r', 'y', 'f', 'g'],
        'u' => seq!['y', 'i', 'h', 'j'],
        'v' => seq!['c', 'f', 'g', 'b'],
        'w' => seq!['q', 'e', 'a', 's'],
        'x' => seq!['z', 's', 'd', 'c'],
        'y' => seq!['t', 'u', 'g', 'h'],
        'z' => seq!['a', 's', 'x'],
        _ => seq![],
    }
}

/// The keys next to a letter on a QWERTY keyboard (empty for other characters).
pub fn keyboard_neighbour_list(c: char) -> (r: Vec<char>)
    ensures
        r@ == keyboard_neighbours(c),
{
    let r: Vec<char> = match c {
        'a' => vec!['q', 'w', 's', 'z'],
        'b' => vec!['v', 'g', 'h', 'n'],
        'c' => vec!['x', 'd', 'f', 'v'],
        'd' => vec!['s', 'e', 'f', 'r', 'c', 'x'],
        'e' => vec!['w', 'r', 's', 'd'],
        'f' => vec!['d', 'r', 'g', 't', 'v', 'c'],
        'g' => vec!['f', 't', 'h', 'y', 'v', 'b'],
        'h' => vec!['g', 'y', 'j', 'u', 'b', 'n'],
        'i' => vec!['u', 'o', 'j', 'k'],
        'j' => vec!['h', 'u', 'k', 'i', 'n', 'm'],
        'k' => vec!['j', 'i', 'l', 'o', 'm'],
        'l' => vec!['k', 'o', 'p'],
        'm' => vec!['n', 'j', 'k'],
        'n' => vec!['b', 'h', 'j', 'm'],
        'o' => vec!['i', 'p', 'k', 'l'],
        'p' => vec!['o', 'l'],
        'q' => vec!['w', 'a'],
        'r' => vec!['e', 't', 'd', 'f'],
        's' => vec!['a', 'w', 'd', 'x', 'z'],
        't' => vec!['r', 'y', 'f', 'g'],
        'u' => vec!['y', 'i', 'h', 'j'],
        'v' => vec!['c', 'f', 'g', 'b'],
        'w' => vec!['q', 'e', 'a', 's'],
        'x' => vec!['z', 's', 'd', 'c'],
        'y' => vec!['t', 'u', 'g', 'h'],
        'z' => vec!['a', 's', 'x'],
        _ => vec![],
    };
    assert(r@ =~= keyboard_neighbours(c));
    r
}

} // verus!
