use brandguard::dns::DnsInfo;
use brandguard::http::HttpInfo;
use brandguard::net::asn_from_reply;
use brandguard::risk::{severity_class, RiskEngine, ScanResult, ScoreCard};
use brandguard::scan::{finish_analysis, flagged_order, needs_deep_probes};
use brandguard::tls::inspect_at;
use brandguard::typo::{DomainVariant, TypoGenerator};
use brandguard::whois::query_at;

fn some_variant() -> DomainVariant {
    TypoGenerator::new("ab.io").transpositions().remove(0)
}

fn card(total: u8) -> ScoreCard {
    ScoreCard { total, label: "Medium".to_string(), indicators: vec![] }
}

fn result_with(score: u8, at: i64) -> ScanResult {
    let dns = DnsInfo::from_lookup(vec!["1.2.3.4".to_string()], None);
    finish_analysis(some_variant(), dns, false, None, None, None, card(score), at).unwrap()
}

#[test]
fn dns_info_resolves_iff_addresses() {
    let d = DnsInfo::from_lookup(vec![], None);
    assert!(!d.resolves);
    assert!(d.asn_lookup_target().is_none());
    assert!(!needs_deep_probes(&d));
    let d = DnsInfo::from_lookup(
        vec!["10.0.0.1".to_string(), "::1".to_string()],
        Some("AS13335".to_string()),
    );
    assert!(d.resolves);
    assert_eq!(d.asn_lookup_target().map(|s| s.as_str()), Some("10.0.0.1"));
    assert_eq!(d.asn_hint.as_deref(), Some("AS13335"));
    assert!(needs_deep_probes(&d));
}

#[test]
fn asn_reply_decisions() {
    assert_eq!(
        asn_from_reply("success", Some("ISP".to_string()), Some("AS1 X".to_string())),
        Some("AS1 X".to_string())
    );
    assert_eq!(asn_from_reply("success", Some("ISP".to_string()), None), Some("ISP".to_string()));
    assert_eq!(asn_from_reply("success", None, None), None);
    assert_eq!(asn_from_reply("fail", Some("ISP".to_string()), Some("AS1".to_string())), None);
}

#[test]
fn placeholder_records() {
    let t = inspect_at(1_700_000_000);
    assert_eq!(t.issuer, "Stub Issuer");
    assert_eq!(t.subject, "Stub Subject");
    assert_eq!(t.not_after, 1_700_000_000);
    assert!(t.is_valid);
    let w = query_at(42);
    assert_eq!(w.registrar.as_deref(), Some("Stub Registrar"));
    assert_eq!(w.creation_date, Some(42));
}

fn page(title: bool, login: bool, favicon: bool) -> Option<HttpInfo> {
    Some(HttpInfo {
        status: 200,
        title: None,
        has_favicon: favicon,
        favicon_from_brand: favicon,
        has_login_form: login,
        brand_title_match: title,
    })
}

const NOW: i64 = 1_736_951_520;
const DAY: i64 = 86_400;

#[test]
fn readme_example_scores_critical() {
    let engine = RiskEngine::new();
    let dns = DnsInfo::from_lookup(vec!["104.21.0.1".to_string()], None);
    let whois = Some(query_at(NOW - 7 * DAY));
    let c = engine.score(&dns, true, &Some(inspect_at(NOW)), &whois, &page(true, true, false), NOW);
    assert_eq!(c.total, 100);
    assert_eq!(c.label, "Critical");
    assert_eq!(
        c.indicators,
        vec!["Active MX", "Newly Registered", "Credential Harvesting Input", "Brand Title Match"]
    );
}

#[test]
fn no_signal_scores_zero() {
    let engine = RiskEngine::new();
    let dns = DnsInfo::from_lookup(vec![], None);
    let c = engine.score(&dns, false, &None, &None, &None, NOW);
    assert_eq!(c.total, 0);
    assert_eq!(c.label, "Low");
    assert!(c.indicators.is_empty());
}

#[test]
fn active_mx_adds_twenty() {
    let engine = RiskEngine::new();
    let dns = DnsInfo::from_lookup(vec!["1.1.1.1".to_string()], None);
    let a = engine.score(&dns, false, &None, &None, &None, NOW);
    let b = engine.score(&dns, true, &None, &None, &None, NOW);
    assert_eq!(a.total, 40);
    assert_eq!(a.label, "Medium");
    assert_eq!(b.total, 60);
    assert_eq!(b.label, "High");
    assert_eq!(b.indicators, vec!["Active MX"]);
}

#[test]
fn every_weight_and_the_cap() {
    let engine = RiskEngine::new();
    let dead = DnsInfo::from_lookup(vec![], Some("AS14061 DigitalOcean, LLC".to_string()));
    assert_eq!(engine.score(&dead, false, &None, &None, &None, NOW).total, 20);
    let bad_tls = Some(brandguard::tls::TlsInfo {
        issuer: "self".to_string(),
        subject: "x".to_string(),
        not_after: NOW,
        is_valid: false,
    });
    let none = DnsInfo::from_lookup(vec![], None);
    let c = engine.score(&none, false, &bad_tls, &None, &page(false, false, true), NOW);
    assert_eq!(c.total, 20);
    assert_eq!(c.label, "Medium");
    assert_eq!(c.indicators, vec!["TLS Issuer Mismatch", "Brand Favicon"]);
    let c = engine.score(&none, false, &None, &Some(query_at(NOW - 29 * DAY)), &None, NOW);
    assert_eq!((c.total, c.label.as_str()), (15, "Low"));
    let c = engine.score(&none, false, &None, &Some(query_at(NOW - 31 * DAY)), &None, NOW);
    assert_eq!(c.total, 0);
    let live = DnsInfo::from_lookup(vec!["1.1.1.1".to_string()], Some("Vultr Holdings".to_string()));
    let c = engine.score(
        &live,
        true,
        &bad_tls,
        &Some(query_at(NOW)),
        &page(true, true, true),
        NOW,
    );
    assert_eq!(c.total, 100);
    assert_eq!(c.indicators.len(), 7);
    assert_eq!(c.indicators[1], "Abused ASN");
}

#[test]
fn dead_zero_score_variants_are_dropped() {
    let dead = DnsInfo::from_lookup(vec![], None);
    assert!(finish_analysis(some_variant(), dead, false, None, None, None, card(0), 1).is_none());
    let dead = DnsInfo::from_lookup(vec![], None);
    let kept = finish_analysis(some_variant(), dead, false, None, None, None, card(5), 7).unwrap();
    assert_eq!(kept.risk_score, 5);
    assert_eq!(kept.scanned_at, 7);
    assert_eq!(kept.variant.fqdn, "ba.io");
    let live = DnsInfo::from_lookup(vec!["1.1.1.1".to_string()], None);
    assert!(finish_analysis(some_variant(), live, true, None, None, None, card(0), 1).is_some());
}

#[test]
fn report_order_is_descending_and_stable() {
    let results = vec![
        result_with(20, 0),
        result_with(90, 1),
        result_with(10, 2),
        result_with(90, 3),
        result_with(50, 4),
        result_with(20, 5),
    ];
    assert_eq!(flagged_order(&results, 20), vec![1, 3, 4, 0, 5]);
    assert_eq!(flagged_order(&results, 0), vec![1, 3, 4, 0, 5, 2]);
    assert_eq!(flagged_order(&results, 91), Vec::<usize>::new());
    let top = vec![result_with(255, 0), result_with(0, 1)];
    assert_eq!(flagged_order(&top, 0), vec![0, 1]);
}

#[test]
fn severity_classes() {
    assert_eq!(severity_class("High"), "risk-high");
    assert_eq!(severity_class("Medium"), "risk-medium");
    assert_eq!(severity_class("Low"), "risk-low");
    assert_eq!(severity_class("Critical"), "risk-low");
}

#[test]
fn any_icon_without_brand_host_adds_nothing() {
    let engine = RiskEngine::new();
    let none = DnsInfo::from_lookup(vec![], None);
    let plain_icon = Some(HttpInfo {
        status: 200,
        title: None,
        has_favicon: true,
        favicon_from_brand: false,
        has_login_form: false,
        brand_title_match: false,
    });
    let c = engine.score(&none, false, &None, &None, &plain_icon, NOW);
    assert_eq!(c.total, 0);
    assert!(c.indicators.is_empty());
}
