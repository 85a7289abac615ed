# brandguard

Lookalike-domain (typosquatting) intelligence: generates permutations of a
brand domain, probes each one (DNS, MX, TLS, WHOIS, HTTP) and reports the
risky ones as an HTML dashboard.

Layout:

- `src/` — the verified library (Verus):
  - `typo.rs`: the permutation engine (`TypoGenerator`), each category
    specified exactly, merged without repeated FQDNs and without the brand's
    own domain; `variant_laws.rs` proves what holds of every merged list.
  - `tables.rs`: confusables, TLDs, subdomain prefixes, QWERTY neighbours.
  - `text.rs`: decimal rendering, string building, search, trimming, and the
    three trusted calls into std (`String::push`, `str::to_lowercase`,
    `String::from_utf8`).
  - `http.rs`: page heuristics (title, brand mention, favicon, login markers).
  - `dns.rs`, `net.rs`, `tls.rs`, `whois.rs`: probe records and decisions.
  - `risk.rs`: the weighted risk score, its severity band and signals.
  - `scan.rs`: the keep/drop rule and the report order.
- `app/` — the command-line program: async probes, HTTP, DNS, similarity
  scores (floating point), report rendering.
- `tests/` — tests of the library.
