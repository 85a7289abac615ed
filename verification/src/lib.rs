//! Brand-protection analysis library: lookalike-domain generation, page
//! heuristics, probe records and decisions, risk scoring and report order.
pub mod text;
pub mod tables;
pub mod typo;
pub mod variant_laws;
pub mod http;
pub mod dns;
pub mod net;
pub mod tls;
pub mod whois;
pub mod risk;
pub mod scan;
