//! Risk scoring of one analysed variant.
use vstd::prelude::*;
use crate::dns::DnsInfo;
use crate::http::HttpInfo;
use crate::text::{chars_of, contains_chars, occurs_at, occurs_in};
use crate::tls::TlsInfo;
use crate::typo::DomainVariant;
use crate::whois::WhoisInfo;

verus! {

/// The verdict on one variant.
pub struct ScoreCard {
    /// Risk score, 0 to 100
    pub total: u8,
    /// Severity label
    pub label: String,
    /// The signals that contributed
    pub indicators: Vec<String>,
}

/// Everything gathered on one variant, with its verdict.
pub struct ScanResult {
    pub variant: DomainVariant,
    pub dns: DnsInfo,
    pub mx_active: bool,
    pub tls: Option<TlsInfo>,
    pub whois: Option<WhoisInfo>,
    pub http: Option<HttpInfo>,
    pub risk_score: u8,
    pub risk_label: String,
    pub indicators: Vec<String>,
    /// When the variant was analysed, in seconds since the Unix epoch
    pub scanned_at: i64,
}

/// Hosting providers whose networks are commonly abused for phishing.
pub open spec fn abused_asn(hint: Option<String>) -> bool {
    match hint {
        Some(h) => occurs_in(h@, "Vultr"@) || occurs_in(h@, "DigitalOcean"@) || occurs_in(
            h@,
            "Hostinger"@,
        ),
        None => false,
    }
}

/// Seconds in thirty days.
pub open spec fn thirty_days() -> int {
    2_592_000
}

/// Registered less than thirty days before `now`.
pub open spec fn newly_registered(whois: Option<WhoisInfo>, now: i64) -> bool {
    match whois {
        Some(w) => match w.creation_date {
            Some(c) => c <= now && now - c < thirty_days(),
            None => false,
        },
        None => false,
    }
}

/// The certificate does not validate for the variant (issuer mismatch or self-signed).
pub open spec fn tls_mismatch(tls: Option<TlsInfo>) -> bool {
    tls matches Some(t) && !t.is_valid
}

pub open spec fn title_matches(http: Option<HttpInfo>) -> bool {
    http matches Some(h) && h.brand_title_match
}

pub open spec fn harvests_credentials(http: Option<HttpInfo>) -> bool {
    http matches Some(h) && h.has_login_form
}

pub open spec fn shows_favicon(http: Option<HttpInfo>) -> bool {
    http matches Some(h) && h.favicon_from_brand
}

/// `w` when `b` holds, else nothing.
pub open spec fn weight(b: bool, w: int) -> int {
    if b {
        w
    } else {
        0
    }
}

/// The sum of the weights of the signals that fired: 40 for a domain that
/// resolves, 20 for an active MX record, 20 for an abused hosting network,
/// 15 for a registration younger than thirty days, 15 for a credential
/// input, 10 for the brand in the title, 10 for a certificate that does not
/// validate, 10 for an icon served from the brand's own domain.
pub open spec fn raw_score(
    dns: DnsInfo,
    mx: bool,
    tls: Option<TlsInfo>,
    whois: Option<WhoisInfo>,
    http: Option<HttpInfo>,
    now: i64,
) -> int {
    weight(dns.resolves, 40) + weight(mx, 20) + weight(abused_asn(dns.asn_hint), 20) + weight(
        newly_registered(whois, now),
        15,
    ) + weight(harvests_credentials(http), 15) + weight(title_matches(http), 10) + weight(
        tls_mismatch(tls),
        10,
    ) + weight(shows_favicon(http), 10)
}

/// The score: the weights of the signals that fired, capped at 100.
pub open spec fn capped_score(
    dns: DnsInfo,
    mx: bool,
    tls: Option<TlsInfo>,
    whois: Option<WhoisInfo>,
    http: Option<HttpInfo>,
    now: i64,
) -> int {
    let r = raw_score(dns, mx, tls, whois, http, now);
    if r > 100 {
        100
    } else {
        r
    }
}

/// `seq![name]` when `b` holds, else nothing.
pub open spec fn named(b: bool, name: Seq<char>) -> Seq<Seq<char>> {
    if b {
        seq![name]
    } else {
        seq![]
    }
}

/// The names of the signals that fired, in a fixed order. Resolution is the
/// base of the score and is not listed.
pub open spec fn fired_signals(
    dns: DnsInfo,
    mx: bool,
    tls: Option<TlsInfo>,
    whois: Option<WhoisInfo>,
    http: Option<HttpInfo>,
    now: i64,
) -> Seq<Seq<char>> {
    named(mx, "Active MX"@) + named(abused_asn(dns.asn_hint), "Abused ASN"@) + named(
        newly_registered(whois, now),
        "Newly Registered"@,
    ) + named(harvests_credentials(http), "Credential Harvesting Input"@) + named(
        title_matches(http),
        "Brand Title Match"@,
    ) + named(tls_mismatch(tls), "TLS Issuer Mismatch"@) + named(shows_favicon(http), "Brand Favicon"@)
}

/// The severity band of a score: 100 is Critical, 50 and above High, 20
/// and above Medium, below 20 Low.
pub open spec fn severity(total: int) -> Seq<char> {
    if total >= 100 {
        "Critical"@
    } else if total >= 50 {
        "High"@
    } else if total >= 20 {
        "Medium"@
    } else {
        "Low"@
    }
}

/// Views of a list of strings.
pub open spec fn string_views(v: Seq<String>) -> Seq<Seq<char>> {
    v.map_values(|s: String| s@)
}

fn push_named(list: &mut Vec<String>, fired: bool, name: &str)
    ensures
        string_views(final(list)@) == string_views(old(list)@) + named(fired, name@),
{
    let ghost before = list@;
    if fired {
        list.push(String::from_str(name));
        assert(string_views(list@) =~= string_views(before) + named(fired, name@));
    } else {
        assert(string_views(list@) =~= string_views(before) + named(fired, name@));
    }
}

fn hint_is_abused(hint: &Option<String>) -> (b: bool)
    ensures
        b == abused_asn(*hint),
{
    match hint {
        Some(h) => {
            let hc = chars_of(h.as_str());
            contains_chars(&hc, &chars_of("Vultr")) || contains_chars(&hc, &chars_of("DigitalOcean"))
                || contains_chars(&hc, &chars_of("Hostinger"))
        },
        None => false,
    }
}

fn is_newly_registered(whois: &Option<WhoisInfo>, now: i64) -> (b: bool)
    ensures
        b == newly_registered(*whois, now),
{
    match whois {
        Some(w) => match w.creation_date {
            Some(c) => c <= now && (now as i128) - (c as i128) < 2_592_000,
            None => false,
        },
        None => false,
    }
}

/// The severity band of a score, as text.
fn severity_label(total: u8) -> (s: String)
    ensures
        s@ == severity(total as int),
{
    if total >= 100 {
        String::from_str("Critical")
    } else if total >= 50 {
        String::from_str("High")
    } else if total >= 20 {
        String::from_str("Medium")
    } else {
        String::from_str("Low")
    }
}

/// The report's style class for a severity label: `risk-high` for High,
/// `risk-medium` for Medium, `risk-low` for every other label.
pub open spec fn severity_class_of(label: Seq<char>) -> Seq<char> {
    if label == "High"@ {
        "risk-high"@
    } else if label == "Medium"@ {
        "risk-medium"@
    } else {
        "risk-low"@
    }
}

/// The report's style class for a severity label.
pub fn severity_class(label: &str) -> (c: String)
    ensures
        c@ == severity_class_of(label@),
{
    let owned = label.to_owned();
    if owned == String::from_str("High") {
        String::from_str("risk-high")
    } else if owned == String::from_str("Medium") {
        String::from_str("risk-medium")
    } else {
        String::from_str("risk-low")
    }
}

/// Applies the risk weighting.
pub struct RiskEngine {}

impl RiskEngine {
    pub fn new() -> (e: RiskEngine) {
        RiskEngine {}
    }

    /// The score card of a variant scanned at `now` (seconds since the Unix
    /// epoch): the weights of the signals that fired, capped at 100, its
    /// severity band, and the names of the signals that fired.
    #[verifier::spinoff_prover]
    pub fn score(
        &self,
        dns: &DnsInfo,
        mx: bool,
        tls: &Option<TlsInfo>,
        whois: &Option<WhoisInfo>,
        http: &Option<HttpInfo>,
        now: i64,
    ) -> (card: ScoreCard)
        ensures
            card.total == capped_score(*dns, mx, *tls, *whois, *http, now),
            card.label@ == severity(card.total as int),
            string_views(card.indicators@) == fired_signals(*dns, mx, *tls, *whois, *http, now),
    {
        let asn = hint_is_abused(&dns.asn_hint);
        let young = is_newly_registered(whois, now);
        let harvest = match http {
            Some(h) => h.has_login_form,
            None => false,
        };
        let title = match http {
            Some(h) => h.brand_title_match,
            None => false,
        };
        let favicon = match http {
            Some(h) => h.favicon_from_brand,
            None => false,
        };
        let mismatch = match tls {
            Some(t) => !t.is_valid,
            None => false,
        };
        let mut raw: u32 = 0;
        if dns.resolves {
            raw = raw + 40;
        }
        if mx {
            raw = raw + 20;
        }
        if asn {
            raw = raw + 20;
        }
        if young {
            raw = raw + 15;
        }
        if harvest {
            raw = raw + 15;
        }
        if title {
            raw = raw + 10;
        }
        if mismatch {
            raw = raw + 10;
        }
        if favicon {
            raw = raw + 10;
        }
        assert(raw == raw_score(*dns, mx, *tls, *whois, *http, now));
        let total: u8 = if raw > 100 {
            100
        } else {
            raw as u8
        };
        let label = severity_label(total);
        let mut indicators: Vec<String> = Vec::new();
        assert(string_views(indicators@) =~= Seq::<Seq<char>>::empty());
        push_named(&mut indicators, mx, "Active MX");
        push_named(&mut indicators, asn, "Abused ASN");
        push_named(&mut indicators, young, "Newly Registered");
        push_named(&mut indicators, harvest, "Credential Harvesting Input");
        push_named(&mut indicators, title, "Brand Title Match");
        push_named(&mut indicators, mismatch, "TLS Issuer Mismatch");
        push_named(&mut indicators, favicon, "Brand Favicon");
        assert(string_views(indicators@) =~= fired_signals(*dns, mx, *tls, *whois, *http, now));
        ScoreCard { total, label, indicators }
    }
}

/// An active MX record adds 20 to the score, capped at 100, and lists
/// "Active MX" among the signals; without one it is not listed.
pub proof fn law_active_mx_adds_twenty(
    dns: DnsInfo,
    tls: Option<TlsInfo>,
    whois: Option<WhoisInfo>,
    http: Option<HttpInfo>,
    now: i64,
)
    ensures
        capped_score(dns, true, tls, whois, http, now) == (if capped_score(
            dns,
            false,
            tls,
            whois,
            http,
            now,
        ) + 20 > 100 {
            100
        } else {
            capped_score(dns, false, tls, whois, http, now) + 20
        }),
        fired_signals(dns, true, tls, whois, http, now).contains("Active MX"@),
        !fired_signals(dns, false, tls, whois, http, now).contains("Active MX"@),
{
    let with = fired_signals(dns, true, tls, whois, http, now);
    assert(with[0] == "Active MX"@);
    let without = fired_signals(dns, false, tls, whois, http, now);
    reveal_strlit("Active MX");
    reveal_strlit("Abused ASN");
    reveal_strlit("Newly Registered");
    reveal_strlit("Credential Harvesting Input");
    reveal_strlit("Brand Title Match");
    reveal_strlit("TLS Issuer Mismatch");
    reveal_strlit("Brand Favicon");
    if without.contains("Active MX"@) {
        let k = choose|k: int| 0 <= k < without.len() && without[k] == "Active MX"@;
        assert(without[k].len() == 9);
        assert(without[k][0] == 'A');
        assert(without[k][1] == 'c');
    }
}

/// A variant that does not resolve and shows no other signal scores 0, is
/// labelled Low and lists no signal.
pub proof fn law_no_signal_scores_zero(dns: DnsInfo, whois: Option<WhoisInfo>, now: i64)
    requires
        !dns.resolves,
        dns.asn_hint is None,
        !newly_registered(whois, now),
    ensures
        capped_score(dns, false, None, whois, None, now) == 0,
        severity(0) == "Low"@,
        fired_signals(dns, false, None, whois, None, now).len() == 0,
{
}

/// Scores of 50 and above are High or Critical, and only a score of 100 is
/// Critical.
pub proof fn law_severity_bands(total: int)
    requires
        0 <= total <= 100,
    ensures
        (severity(total) == "High"@ || severity(total) == "Critical"@) <==> total >= 50,
        severity(total) == "Critical"@ <==> total == 100,
{
    reveal_strlit("Critical");
    reveal_strlit("High");
    reveal_strlit("Medium");
    reveal_strlit("Low");
    if total < 50 {
        let s = severity(total);
        assert(s.len() != 4 || s[0] != 'H');
        assert(s.len() != 8);
    }
    if total < 100 {
        assert(severity(total).len() != 8);
    }
}

/// A hosting hint that names Vultr, DigitalOcean or Hostinger, anywhere in
/// it, adds 20 to the score (capped at 100) over the same variant without a
/// hint, and lists "Abused ASN" among the signals; without a hint it is not
/// listed.
pub proof fn law_abused_network_adds_twenty(
    dns: DnsInfo,
    mx: bool,
    tls: Option<TlsInfo>,
    whois: Option<WhoisInfo>,
    http: Option<HttpInfo>,
    now: i64,
    provider: Seq<char>,
    p: int,
)
    requires
        provider == "Vultr"@ || provider == "DigitalOcean"@ || provider == "Hostinger"@,
        dns.asn_hint matches Some(h) && 0 <= p && p + provider.len() <= h@.len() && h@.subrange(
            p,
            p + provider.len(),
        ) == provider,
    ensures
        ({
            let bare = DnsInfo { resolves: dns.resolves, ips: dns.ips, asn_hint: None };
            let base = capped_score(bare, mx, tls, whois, http, now);
            &&& capped_score(dns, mx, tls, whois, http, now) == (if base + 20 > 100 {
                100
            } else {
                base + 20
            })
            &&& fired_signals(dns, mx, tls, whois, http, now).contains("Abused ASN"@)
            &&& !fired_signals(bare, mx, tls, whois, http, now).contains("Abused ASN"@)
        }),
{
    match dns.asn_hint {
        Some(h) => {
            assert(occurs_at(h@, provider, p));
        },
        None => {},
    }
    assert(abused_asn(dns.asn_hint));
    let bare = DnsInfo { resolves: dns.resolves, ips: dns.ips, asn_hint: None };
    let with = fired_signals(dns, mx, tls, whois, http, now);
    let without = fired_signals(bare, mx, tls, whois, http, now);
    reveal_strlit("Active MX");
    reveal_strlit("Abused ASN");
    reveal_strlit("Newly Registered");
    reveal_strlit("Credential Harvesting Input");
    reveal_strlit("Brand Title Match");
    reveal_strlit("TLS Issuer Mismatch");
    reveal_strlit("Brand Favicon");
    let k: int = if mx { 1 } else { 0 };
    assert(with[k] == "Abused ASN"@);
    if without.contains("Abused ASN"@) {
        let q = choose|q: int| 0 <= q < without.len() && without[q] == "Abused ASN"@;
        assert(without[q].len() == 10);
    }
}

/// A hosting hint that names none of Vultr, DigitalOcean and Hostinger
/// scores exactly as no hint at all, and "Abused ASN" is not listed.
pub proof fn law_other_networks_add_nothing(
    dns: DnsInfo,
    mx: bool,
    tls: Option<TlsInfo>,
    whois: Option<WhoisInfo>,
    http: Option<HttpInfo>,
    now: i64,
)
    requires
        dns.asn_hint matches Some(h) && forall|provider: Seq<char>, p: int|
            (provider == "Vultr"@ || provider == "DigitalOcean"@ || provider == "Hostinger"@) && 0
                <= p && p + provider.len() <= h@.len() ==> #[trigger] h@.subrange(
                p,
                p + provider.len(),
            ) != provider,
    ensures
        ({
            let bare = DnsInfo { resolves: dns.resolves, ips: dns.ips, asn_hint: None };
            &&& capped_score(dns, mx, tls, whois, http, now) == capped_score(
                bare,
                mx,
                tls,
                whois,
                http,
                now,
            )
            &&& fired_signals(dns, mx, tls, whois, http, now) == fired_signals(
                bare,
                mx,
                tls,
                whois,
                http,
                now,
            )
        }),
{
    match dns.asn_hint {
        Some(h) => {
            assert forall|provider: Seq<char>|
                provider == "Vultr"@ || provider == "DigitalOcean"@ || provider == "Hostinger"@
                implies !occurs_in(h@, provider) by {
                if occurs_in(h@, provider) {
                    let q = choose|q: int| occurs_at(h@, provider, q);
                    assert(h@.subrange(q, q + provider.len()) == provider);
                }
            }
            assert(!occurs_in(h@, "Vultr"@));
            assert(!occurs_in(h@, "DigitalOcean"@));
            assert(!occurs_in(h@, "Hostinger"@));
        },
        None => {},
    }
    assert(!abused_asn(dns.asn_hint));
}

} // verus!
