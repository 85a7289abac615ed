//! The decisions of a scan: which probes a variant gets, which analysed
//! variants are kept, and the order in which flagged variants are reported.
use vstd::prelude::*;
use crate::dns::DnsInfo;
use crate::http::HttpInfo;
use crate::risk::{ScanResult, ScoreCard};
use crate::tls::TlsInfo;
use crate::typo::DomainVariant;
use crate::whois::WhoisInfo;

verus! {

/// Whether a variant gets the MX, TLS and HTTP probes: only when it
/// resolves. The registration lookup is made for every variant.
pub fn needs_deep_probes(dns: &DnsInfo) -> (b: bool)
    ensures
        b == dns.resolves,
{
    dns.resolves
}

/// The analysed variant, unless it is dead (does not resolve) and scored
/// zero, in which case it is left out of the results.
pub fn finish_analysis(
    variant: DomainVariant,
    dns: DnsInfo,
    mx_active: bool,
    tls: Option<TlsInfo>,
    whois: Option<WhoisInfo>,
    http: Option<HttpInfo>,
    card: ScoreCard,
    scanned_at: i64,
) -> (r: Option<ScanResult>)
    ensures
        r is None <==> (card.total == 0 && !dns.resolves),
        r matches Some(s) ==> {
            &&& s.variant == variant
            &&& s.dns == dns
            &&& s.mx_active == mx_active
            &&& s.tls == tls
            &&& s.whois == whois
            &&& s.http == http
            &&& s.risk_score == card.total
            &&& s.risk_label == card.label
            &&& s.indicators == card.indicators
            &&& s.scanned_at == scanned_at
        },
{
    if card.total == 0 && !dns.resolves {
        return None;
    }
    Some(
        ScanResult {
            variant,
            dns,
            mx_active,
            tls,
            whois,
            http,
            risk_score: card.total,
            risk_label: card.label,
            indicators: card.indicators,
            scanned_at,
        },
    )
}

// ─── Ranking ─────────────────────────────────────────────────────────────────

/// The risk scores of a list of results.
pub open spec fn scores_of(rs: Seq<ScanResult>) -> Seq<u8> {
    rs.map_values(|r: ScanResult| r.risk_score)
}

/// Positions below `k` holding score `s`, in increasing order.
pub open spec fn positions_with(sc: Seq<u8>, s: int, k: int) -> Seq<usize>
    decreases k,
{
    if k <= 0 {
        seq![]
    } else if sc[k - 1] == s {
        positions_with(sc, s, k - 1).push((k - 1) as usize)
    } else {
        positions_with(sc, s, k - 1)
    }
}

/// Positions with a score from `lo` to `hi`: highest score first, and
/// positions with the same score in increasing order.
pub open spec fn ranked_between(sc: Seq<u8>, lo: int, hi: int) -> Seq<usize>
    decreases hi - lo + 1,
{
    if lo > hi {
        seq![]
    } else {
        ranked_between(sc, lo + 1, hi) + positions_with(sc, lo, sc.len() as int)
    }
}

/// Positions of the results scoring at least `min_score`, by descending
/// score, ties in their original order.
pub open spec fn ranked(sc: Seq<u8>, min_score: u8) -> Seq<usize> {
    ranked_between(sc, min_score as int, 255)
}

/// The positions of the results that score at least `min_score`, by
/// descending score, results with equal scores in their original order.
pub fn flagged_order(results: &Vec<ScanResult>, min_score: u8) -> (order: Vec<usize>)
    ensures
        order@ == ranked(scores_of(results@), min_score),
{
    let ghost sc = scores_of(results@);
    let n = results.len();
    let mut order: Vec<usize> = Vec::new();
    let mut level: u16 = 256;
    while level > min_score as u16
        invariant
            n == results@.len(),
            sc == scores_of(results@),
            min_score <= level <= 256,
            order@ == ranked_between(sc, level as int, 255),
        decreases level,
    {
        level = level - 1;
        let ghost before = order@;
        let mut i: usize = 0;
        while i < n
            invariant
                n == results@.len(),
                sc == scores_of(results@),
                level < 256,
                i <= n,
                order@ == before + positions_with(sc, level as int, i as int),
            decreases n - i,
        {
            if results[i].risk_score as u16 == level {
                order.push(i);
            }
            i = i + 1;
            assert(order@ =~= before + positions_with(sc, level as int, i as int));
        }
    }
    order
}

// ─── Laws of the ranking ─────────────────────────────────────────────────────

proof fn lemma_positions_with(sc: Seq<u8>, s: int, k: int)
    requires
        0 <= k <= sc.len(),
        sc.len() <= usize::MAX,
    ensures
        forall|p: int|
            0 <= p < positions_with(sc, s, k).len() ==> (#[trigger] positions_with(sc, s, k)[p]) < k
                && sc[positions_with(sc, s, k)[p] as int] == s,
        forall|p: int, q: int|
            0 <= p < q < positions_with(sc, s, k).len() ==> positions_with(sc, s, k)[p]
                < positions_with(sc, s, k)[q],
        forall|e: int|
            0 <= e < k && sc[e] == s ==> #[trigger] positions_with(sc, s, k).contains(e as usize),
    decreases k,
{
    if k > 0 {
        lemma_positions_with(sc, s, k - 1);
        let prev = positions_with(sc, s, k - 1);
        let cur = positions_with(sc, s, k);
        if sc[k - 1] == s {
            assert(cur == prev.push((k - 1) as usize));
            assert forall|p: int| 0 <= p < cur.len() implies (#[trigger] cur[p]) < k && sc[cur[p] as int] == s by {
                if p < prev.len() {
                    assert(cur[p] == prev[p]);
                }
            }
            assert forall|p: int, q: int| 0 <= p < q < cur.len() implies cur[p] < cur[q] by {
                assert(cur[p] == prev[p]);
                if q < prev.len() {
                    assert(cur[q] == prev[q]);
                }
            }
        } else {
            assert(cur == prev);
        }
        assert forall|e: int| 0 <= e < k && sc[e] == s implies #[trigger] cur.contains(e as usize) by {
            if e < k - 1 {
                assert(prev.contains(e as usize));
                let p = choose|p: int| 0 <= p < prev.len() && prev[p] == e as usize;
                assert(cur[p] == prev[p]);
            } else {
                assert(cur[cur.len() - 1] == e as usize);
            }
        }
    }
}

proof fn lemma_ranked_between(sc: Seq<u8>, lo: int, hi: int)
    requires
        0 <= lo,
        sc.len() <= usize::MAX,
    ensures
        forall|p: int|
            0 <= p < ranked_between(sc, lo, hi).len() ==> (#[trigger] ranked_between(sc, lo, hi)[p])
                < sc.len() && lo <= sc[ranked_between(sc, lo, hi)[p] as int] <= hi,
        forall|p: int, q: int|
            #![trigger ranked_between(sc, lo, hi)[p], ranked_between(sc, lo, hi)[q]]
            0 <= p < q < ranked_between(sc, lo, hi).len() ==> {
                let a = ranked_between(sc, lo, hi)[p] as int;
                let b = ranked_between(sc, lo, hi)[q] as int;
                sc[a] > sc[b] || (sc[a] == sc[b] && a < b)
            },
        forall|e: int|
            0 <= e < sc.len() && lo <= sc[e] <= hi ==> #[trigger] ranked_between(sc, lo, hi).contains(
                e as usize,
            ),
    decreases hi - lo + 1,
{
    if lo <= hi {
        lemma_ranked_between(sc, lo + 1, hi);
        lemma_positions_with(sc, lo, sc.len() as int);
        let a = ranked_between(sc, lo + 1, hi);
        let b = positions_with(sc, lo, sc.len() as int);
        let r = ranked_between(sc, lo, hi);
        assert(r == a + b);
        assert forall|p: int| 0 <= p < r.len() implies (#[trigger] r[p]) < sc.len() && lo <= sc[r[p] as int] <= hi by {
            if p < a.len() {
                assert(r[p] == a[p]);
            } else {
                assert(r[p] == b[p - a.len()]);
            }
        }
        assert forall|p: int, q: int| #![trigger r[p], r[q]] 0 <= p < q < r.len() implies {
            let x = r[p] as int;
            let y = r[q] as int;
            sc[x] > sc[y] || (sc[x] == sc[y] && x < y)
        } by {
            if q < a.len() {
                assert(r[p] == a[p] && r[q] == a[q]);
            } else if p < a.len() {
                assert(r[p] == a[p] && r[q] == b[q - a.len()]);
            } else {
                assert(r[p] == b[p - a.len()] && r[q] == b[q - a.len()]);
            }
        }
        assert forall|e: int| 0 <= e < sc.len() && lo <= sc[e] <= hi implies #[trigger] r.contains(
            e as usize,
        ) by {
            if sc[e] > lo {
                assert(a.contains(e as usize));
                let p = choose|p: int| 0 <= p < a.len() && a[p] == e as usize;
                assert(r[p] == a[p]);
            } else {
                assert(b.contains(e as usize));
                let p = choose|p: int| 0 <= p < b.len() && b[p] == e as usize;
                assert(r[p + a.len()] == b[p]);
            }
        }
    }
}

/// The report order lists each result scoring at least the threshold
/// exactly once and nothing else, by descending score, results with equal
/// scores in the order in which they came.
pub proof fn law_report_order(sc: Seq<u8>, min_score: u8)
    requires
        sc.len() <= usize::MAX,
    ensures
        forall|p: int|
            0 <= p < ranked(sc, min_score).len() ==> (#[trigger] ranked(sc, min_score)[p]) < sc.len()
                && sc[ranked(sc, min_score)[p] as int] >= min_score,
        forall|e: int|
            0 <= e < sc.len() && sc[e] >= min_score ==> #[trigger] ranked(sc, min_score).contains(
                e as usize,
            ),
        forall|p: int, q: int|
            0 <= p < q < ranked(sc, min_score).len() ==> ranked(sc, min_score)[p] != ranked(
                sc,
                min_score,
            )[q],
        forall|p: int, q: int|
            0 <= p < q < ranked(sc, min_score).len() ==> sc[ranked(sc, min_score)[p] as int]
                >= sc[ranked(sc, min_score)[q] as int],
        forall|p: int, q: int|
            0 <= p < q < ranked(sc, min_score).len() && sc[ranked(sc, min_score)[p] as int]
                == sc[ranked(sc, min_score)[q] as int] ==> ranked(sc, min_score)[p] < ranked(
                sc,
                min_score,
            )[q],
{
    lemma_ranked_between(sc, min_score as int, 255);
}

} // verus!
