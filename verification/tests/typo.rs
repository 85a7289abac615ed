use brandguard::typo::{homoglyph_variants, split_domain, DomainVariant, TypoGenerator, VariantKind};
use std::collections::HashSet;

fn variants_of(domain: &str) -> Vec<DomainVariant> {
    TypoGenerator::new(domain).generate_all()
}

fn has(vs: &[DomainVariant], fqdn: &str, kind: VariantKind, technique: &str) -> bool {
    vs.iter().any(|v| v.fqdn == fqdn && v.kind == kind && v.technique == technique)
}

#[test]
fn generator_produces_variants() {
    let g = TypoGenerator::new("google.com");
    let vs = g.generate_all();
    assert!(!vs.is_empty(), "should produce variants");
    // Legitimate domain must not appear
    assert!(!vs.iter().any(|v| v.fqdn == "google.com"));
}

#[test]
fn no_duplicate_fqdns() {
    let g = TypoGenerator::new("example.com");
    let vs = g.generate_all();
    let mut seen = HashSet::new();
    for v in &vs {
        assert!(seen.insert(v.fqdn.clone()), "duplicate: {}", v.fqdn);
    }
}

#[test]
fn split_domain_lowercases_both_sides() {
    assert_eq!(split_domain("BrandDefense.IO"), ("branddefense".to_string(), "io".to_string()));
    assert_eq!(split_domain("brand.co.uk"), ("brand".to_string(), "co.uk".to_string()));
    assert_eq!(split_domain("sub.brand.co.uk"), ("sub.brand".to_string(), "co.uk".to_string()));
    assert_eq!(split_domain("Mail.Brand.COM"), ("mail".to_string(), "brand.com".to_string()));
    assert_eq!(split_domain("localhost"), ("localhost".to_string(), "com".to_string()));
    assert_eq!(split_domain(".io"), ("".to_string(), "io".to_string()));
}

#[test]
fn every_fqdn_is_label_dot_tld() {
    for v in variants_of("brandefense.io") {
        assert_eq!(v.fqdn, format!("{}.{}", v.name, v.tld));
    }
}

#[test]
fn transpositions_swap_neighbours() {
    let vs = variants_of("abc.io");
    assert!(has(&vs, "bac.io", VariantKind::Transposition, "swap positions 0 and 1"));
    assert!(has(&vs, "acb.io", VariantKind::Transposition, "swap positions 1 and 2"));
}

#[test]
fn omissions_drop_one_char_and_keep_two_bytes() {
    let vs = variants_of("abc.io");
    assert!(has(&vs, "bc.io", VariantKind::Omission, "omit char 'a' at position 0"));
    assert!(has(&vs, "ab.io", VariantKind::Omission, "omit char 'c' at position 2"));
    // a one-byte label is never produced by omission
    let short = variants_of("ab.io");
    assert!(!short.iter().any(|v| v.kind == VariantKind::Omission));
}

#[test]
fn insertions_cover_every_letter_and_position() {
    let vs = variants_of("ab.io");
    assert!(has(&vs, "aab.io", VariantKind::Insertion, "insert 'a' at position 0"));
    assert!(has(&vs, "abz.io", VariantKind::Insertion, "insert 'z' at position 2"));
    assert!(has(&vs, "zab.io", VariantKind::Insertion, "insert 'z' at position 0"));
}

#[test]
fn substitutions_skip_the_same_letter() {
    let vs = variants_of("ab.io");
    assert!(has(&vs, "xb.io", VariantKind::Substitution, "substitute 'a' \u{2192} 'x' at position 0"));
    assert!(!vs.iter().any(|v| v.technique == "substitute 'a' \u{2192} 'a' at position 0"));
}

#[test]
fn homoglyphs_replace_first_occurrence() {
    let vs = variants_of("moon.com");
    assert!(has(&vs, "rnoon.com", VariantKind::Homoglyph, "'m' \u{2192} 'rn' (visual confusable)"));
    assert!(has(&vs, "m0on.com", VariantKind::Homoglyph, "'o' \u{2192} '0' (visual confusable)"));
    assert!(has(&vs, "m\u{43e}on.com", VariantKind::Homoglyph, "'o' \u{2192} '\u{43e}' (visual confusable)"));
}

#[test]
fn bit_squats_are_covered_by_substitutions() {
    // 'a' is 0x61: flipping bit 1 gives 'c'; the substitution 'a' -> 'c'
    // comes first, so the bit-squat of the same FQDN is dropped
    let vs = variants_of("a.io");
    assert!(has(&vs, "c.io", VariantKind::Substitution, "substitute 'a' \u{2192} 'c' at position 0"));
    assert!(!vs.iter().any(|v| v.kind == VariantKind::BitSquat));
}

#[test]
fn tld_swaps_use_every_other_tld() {
    let vs = variants_of("brand.io");
    let swaps: Vec<_> = vs.iter().filter(|v| v.kind == VariantKind::TldSwap).collect();
    assert_eq!(swaps.len(), 25);
    assert!(has(&vs, "brand.com", VariantKind::TldSwap, ".io \u{2192} .com"));
    assert!(has(&vs, "brand.co.uk", VariantKind::TldSwap, ".io \u{2192} .co.uk"));
}

#[test]
fn subdomain_prefixes_add_com_variant() {
    let vs = variants_of("brand.io");
    assert!(has(&vs, "secure.brand.io", VariantKind::SubdomainPrefix, "prefix 'secure'"));
    assert!(has(&vs, "secure.brand.com", VariantKind::SubdomainPrefix, "prefix 'secure' + .com TLD"));
    let com = variants_of("brand.com");
    let subs = com.iter().filter(|v| v.kind == VariantKind::SubdomainPrefix).count();
    assert_eq!(subs, 18);
    let v = com.iter().find(|v| v.fqdn == "login.brand.com").unwrap();
    assert_eq!(v.name, "login.brand");
    assert_eq!(v.tld, "com");
}

#[test]
fn hyphen_and_double_char_variants() {
    let vs = variants_of("abc.io");
    assert!(has(&vs, "a-bc.io", VariantKind::HyphenInsertion, "hyphen after position 1"));
    assert!(has(&vs, "ab-c.io", VariantKind::HyphenInsertion, "hyphen after position 2"));
    // doubling 'a' gives the same FQDN as inserting 'a' at 0, which came first
    assert!(has(&vs, "aabc.io", VariantKind::Insertion, "insert 'a' at position 0"));
    assert!(!vs.iter().any(|v| v.kind == VariantKind::DoubleChar && v.fqdn == "aabc.io"));
}

#[test]
fn keyboard_neighbours_replace_letters() {
    let vs = variants_of("pp.io");
    // 'o' replacing 'p' is also a substitution, which comes first
    assert!(!vs.iter().any(|v| v.kind == VariantKind::KeyboardAdjacent));
    assert!(has(&vs, "op.io", VariantKind::Substitution, "substitute 'p' \u{2192} 'o' at position 0"));
}

#[test]
fn first_occurrence_wins_on_repeated_fqdn() {
    // "aa": swapping the two letters gives the brand itself; omitting either gives
    // a one-byte label; inserting 'a' anywhere gives "aaa" once
    let vs = variants_of("aa.io");
    assert_eq!(vs.iter().filter(|v| v.fqdn == "aaa.io").count(), 1);
    assert!(has(&vs, "aaa.io", VariantKind::Insertion, "insert 'a' at position 0"));
    assert!(!vs.iter().any(|v| v.fqdn == "aa.io"));
}

#[test]
fn empty_label_still_has_variants() {
    let vs = variants_of(".io");
    assert!(has(&vs, "a.io", VariantKind::Insertion, "insert 'a' at position 0"));
}

#[test]
fn kind_labels() {
    assert_eq!(VariantKind::Homoglyph.label(), "Homoglyph / Punycode");
    assert_eq!(VariantKind::BitSquat.label(), "Bit-squat");
    assert_eq!(VariantKind::TldSwap.label(), "TLD Swap");
    assert_eq!(VariantKind::AddedDot.label(), "Added Dot");
}

#[test]
fn non_ascii_labels_get_per_character_variants() {
    let g = TypoGenerator::new("b\u{fc}cher.de");
    let names: Vec<String> = g.double_chars().into_iter().map(|v| v.name).collect();
    assert_eq!(
        names,
        vec!["bb\u{fc}cher", "b\u{fc}\u{fc}cher", "b\u{fc}ccher", "b\u{fc}chher", "b\u{fc}cheer", "b\u{fc}cherr"]
    );
    let hyphens = g.hyphen_insertions();
    assert_eq!(hyphens.len(), 5);
    assert_eq!(hyphens[1].name, "b\u{fc}-cher");
    let all = g.generate_all();
    assert!(all.iter().any(|v| v.fqdn == "b\u{fc}-cher.de"));
    assert!(!all.iter().any(|v| v.fqdn == "b\u{fc}cher.de"));
}

#[test]
fn large_positions_render_in_decimal() {
    let vs = variants_of("abcdefghijklm.io");
    assert!(has(&vs, "abcdefghijkml.io", VariantKind::Transposition, "swap positions 11 and 12"));
}

#[test]
fn bit_squats_alone() {
    let g = TypoGenerator::new("a.io");
    let vs = g.bit_squats();
    let names: Vec<&str> = vs.iter().map(|v| v.fqdn.as_str()).collect();
    // 0x61 with bits 0..4 flipped: 0x60 '`', 0x63 'c', 0x65 'e', 0x69 'i', 0x71 'q'
    assert_eq!(names, vec!["c.io", "e.io", "i.io", "q.io"]);
    assert_eq!(vs[0].technique, "bit 1 flipped in byte 0 ('a')");
    assert!(vs.iter().all(|v| v.kind == VariantKind::BitSquat));
    // a non-ASCII label gives no bit-squat from its multi-byte character
    let g = TypoGenerator::new("\u{e9}.io");
    assert!(g.bit_squats().is_empty());
}

#[test]
fn category_counts_for_a_short_label() {
    let g = TypoGenerator::new("ab.io");
    assert_eq!(g.transpositions().len(), 1);
    assert_eq!(g.omissions().len(), 0);
    assert_eq!(g.insertions().len(), 3 * 26);
    assert_eq!(g.substitutions().len(), 2 * 25);
    assert_eq!(g.hyphen_insertions().len(), 1);
    assert_eq!(g.double_chars().len(), 2);
    // 'a' has 9 confusables, 'b' has 3
    assert_eq!(g.homoglyphs().len(), 12);
    // 'a' has 4 neighbours, 'b' has 4
    assert_eq!(g.keyboard_adjacent().len(), 8);
    assert_eq!(g.tld_swaps().len(), 25);
    assert_eq!(g.subdomain_prefixes().len(), 36);
}

#[test]
fn homoglyphs_use_lowercased_label() {
    let g = TypoGenerator::new("OO.com");
    let vs = g.homoglyphs();
    assert_eq!(vs[0].fqdn, "\u{f2}o.com");
    assert_eq!(vs[0].technique, "'o' \u{2192} '\u{f2}' (visual confusable)");
}

#[test]
fn keyboard_adjacent_alone() {
    let g = TypoGenerator::new("q.io");
    let vs = g.keyboard_adjacent();
    let names: Vec<&str> = vs.iter().map(|v| v.fqdn.as_str()).collect();
    assert_eq!(names, vec!["w.io", "a.io"]);
    assert_eq!(vs[1].technique, "key 'q' \u{2192} adjacent 'a' at position 0");
}

#[test]
fn double_chars_alone() {
    let g = TypoGenerator::new("ab.io");
    let vs = g.double_chars();
    assert_eq!(vs[1].fqdn, "abb.io");
    assert_eq!(vs[1].technique, "double char 'b' at position 1");
    assert_eq!(vs[1].kind, VariantKind::DoubleChar);
}

#[test]
fn brandefense_produces_over_four_hundred_variants() {
    let vs = variants_of("brandefense.io");
    assert!(vs.len() >= 400);
    assert!(has(&vs, "brandefensa.io", VariantKind::Substitution, "substitute 'e' \u{2192} 'a' at position 10"));
    assert!(has(&vs, "brandefens.io", VariantKind::Omission, "omit char 'e' at position 10"));
    assert!(has(&vs, "branddefense.io", VariantKind::Insertion, "insert 'd' at position 4"));
    assert!(has(&vs, "br\u{430}ndefense.io", VariantKind::Homoglyph, "'a' \u{2192} '\u{430}' (visual confusable)"));
    assert!(has(&vs, "brandefense.com", VariantKind::TldSwap, ".io \u{2192} .com"));
    assert!(has(&vs, "login.brandefense.com", VariantKind::SubdomainPrefix, "prefix 'login' + .com TLD"));
    assert!(has(&vs, "vrandefense.io", VariantKind::Substitution, "substitute 'b' \u{2192} 'v' at position 0"));
    assert!(has(&vs, "brand-efense.io", VariantKind::HyphenInsertion, "hyphen after position 5"));
}

#[test]
fn generate_all_is_first_occurrence_merge_of_categories() {
    for domain in ["brandefense.io", "aa.com", "google.com", "x.org"] {
        let g = TypoGenerator::new(domain);
        let mut candidates = Vec::new();
        candidates.extend(g.transpositions());
        candidates.extend(g.omissions());
        candidates.extend(g.insertions());
        candidates.extend(g.substitutions());
        candidates.extend(g.homoglyphs());
        candidates.extend(g.bit_squats());
        candidates.extend(g.tld_swaps());
        candidates.extend(g.subdomain_prefixes());
        candidates.extend(g.hyphen_insertions());
        candidates.extend(g.double_chars());
        candidates.extend(g.keyboard_adjacent());
        let (name, tld) = split_domain(domain);
        let legit = format!("{}.{}", name, tld);
        let mut seen = HashSet::new();
        let expected: Vec<(String, VariantKind, String)> = candidates
            .into_iter()
            .filter(|v| seen.insert(v.fqdn.clone()))
            .filter(|v| v.fqdn != legit)
            .map(|v| (v.fqdn, v.kind, v.technique))
            .collect();
        let got: Vec<(String, VariantKind, String)> =
            g.generate_all().into_iter().map(|v| (v.fqdn, v.kind, v.technique)).collect();
        assert_eq!(got, expected);
    }
}

#[test]
fn only_generated_kinds_appear() {
    for v in variants_of("brandefense.io") {
        assert!(v.kind != VariantKind::AddedDash && v.kind != VariantKind::AddedDot);
    }
}

#[test]
fn keyboard_variants_are_substitution_fqdns() {
    let g = TypoGenerator::new("brandefense.io");
    let subs: HashSet<String> = g.substitutions().into_iter().map(|v| v.fqdn).collect();
    for v in g.keyboard_adjacent() {
        assert!(subs.contains(&v.fqdn), "{}", v.fqdn);
    }
}

#[test]
fn homoglyph_variants_of_a_lowercased_label() {
    let vs = homoglyph_variants("moon", "com");
    assert_eq!(vs[0].fqdn, "rnoon.com");
    assert_eq!(vs[0].kind, VariantKind::Homoglyph);
    let g = TypoGenerator::new("MOON.com");
    let a: Vec<String> = g.homoglyphs().into_iter().map(|v| v.fqdn).collect();
    let b: Vec<String> = vs.into_iter().map(|v| v.fqdn).collect();
    assert_eq!(a, b);
}
