//! Lookalike-domain permutation engine: transpositions, omissions,
//! insertions, substitutions, homoglyphs, bit-squats, TLD swaps, subdomain
//! prefixes, hyphen insertions, doubled characters and QWERTY neighbours,
//! merged into one list without repeated FQDNs and without the brand's own
//! domain.
use vstd::prelude::*;
use vstd::slice::slice_to_vec;
use vstd::utf8::*;
use crate::tables::{
    homoglyph_key_list, homoglyph_keys, homoglyph_list, homoglyphs_of, keyboard_neighbour_list,
    keyboard_neighbours, prefix_list, prefix_table, str_views, tld_list, tld_table,
};
use crate::text::{
    chars_of, decimal, lowercase, lowercase_of, push_decimal, push_range, push_str,
    string_from_utf8, string_push,
};

verus! {

// ─── Types ───────────────────────────────────────────────────────────────────

/// Category tag for each generated variant.
#[derive(Debug, Clone, PartialEq, Eq, Structural, Hash)]
pub enum VariantKind {
    Transposition,
    Omission,
    Insertion,
    Substitution,
    Homoglyph,
    BitSquat,
    TldSwap,
    SubdomainPrefix,
    HyphenInsertion,
    DoubleChar,
    KeyboardAdjacent,
    AddedDash,
    AddedDot,
}

/// The human-readable name of each variant category.
pub open spec fn kind_label(k: VariantKind) -> Seq<char> {
    match k {
        VariantKind::Transposition => "Transposition"@,
        VariantKind::Omission => "Omission"@,
        VariantKind::Insertion => "Insertion"@,
        VariantKind::Substitution => "Substitution"@,
        VariantKind::Homoglyph => "Homoglyph / Punycode"@,
        VariantKind::BitSquat => "Bit-squat"@,
        VariantKind::TldSwap => "TLD Swap"@,
        VariantKind::SubdomainPrefix => "Subdomain Prefix"@,
        VariantKind::HyphenInsertion => "Hyphen Insertion"@,
        VariantKind::DoubleChar => "Double Character"@,
        VariantKind::KeyboardAdjacent => "Keyboard Adjacent"@,
        VariantKind::AddedDash => "Added Dash"@,
        VariantKind::AddedDot => "Added Dot"@,
    }
}

impl VariantKind {
    /// The human-readable name of the category, as shown in reports.
    pub fn label(&self) -> (s: String)
        ensures
            s@ == kind_label(*self),
    {
        match self {
            VariantKind::Transposition => String::from_str("Transposition"),
            VariantKind::Omission => String::from_str("Omission"),
            VariantKind::Insertion => String::from_str("Insertion"),
            VariantKind::Substitution => String::from_str("Substitution"),
            VariantKind::Homoglyph => String::from_str("Homoglyph / Punycode"),
            VariantKind::BitSquat => String::from_str("Bit-squat"),
            VariantKind::TldSwap => String::from_str("TLD Swap"),
            VariantKind::SubdomainPrefix => String::from_str("Subdomain Prefix"),
            VariantKind::HyphenInsertion => String::from_str("Hyphen Insertion"),
            VariantKind::DoubleChar => String::from_str("Double Character"),
            VariantKind::KeyboardAdjacent => String::from_str("Keyboard Adjacent"),
            VariantKind::AddedDash => String::from_str("Added Dash"),
            VariantKind::AddedDot => String::from_str("Added Dot"),
        }
    }
}

/// One lookalike domain.
#[derive(Debug, Clone)]
pub struct DomainVariant {
    /// Fully-qualified domain name
    pub fqdn: String,
    /// Label part (everything before the TLD)
    pub name: String,
    /// TLD of this variant
    pub tld: String,
    /// Classification tag
    pub kind: VariantKind,
    /// How the variant was produced
    pub technique: String,
}

/// The mathematical value of a `DomainVariant`.
pub struct VariantView {
    pub fqdn: Seq<char>,
    pub name: Seq<char>,
    pub tld: Seq<char>,
    pub kind: VariantKind,
    pub technique: Seq<char>,
}

impl View for DomainVariant {
    type V = VariantView;

    open spec fn view(&self) -> VariantView {
        VariantView {
            fqdn: self.fqdn@,
            name: self.name@,
            tld: self.tld@,
            kind: self.kind,
            technique: self.technique@,
        }
    }
}

/// Views of a sequence of variants.
pub open spec fn views(s: Seq<DomainVariant>) -> Seq<VariantView> {
    s.map_values(|v: DomainVariant| v@)
}

/// `name.tld`
pub open spec fn join_dot(name: Seq<char>, tld: Seq<char>) -> Seq<char> {
    name + seq!['.'] + tld
}

/// The variant with label `name` under `tld`.
pub open spec fn variant_of(
    name: Seq<char>,
    tld: Seq<char>,
    kind: VariantKind,
    technique: Seq<char>,
) -> VariantView {
    VariantView { fqdn: join_dot(name, tld), name, tld, kind, technique }
}

/// `f(0) + f(1) + ... + f(k - 1)`
pub open spec fn concat_upto(f: spec_fn(int) -> Seq<VariantView>, k: int) -> Seq<VariantView>
    decreases k,
{
    if k <= 0 {
        seq![]
    } else {
        concat_upto(f, k - 1) + f(k - 1)
    }
}

proof fn lemma_views_push(s: Seq<DomainVariant>, v: DomainVariant)
    ensures
        views(s.push(v)) == views(s).push(v@),
{
    assert(views(s.push(v)) =~= views(s).push(v@));
}

proof fn lemma_views_add(s: Seq<DomainVariant>, t: Seq<DomainVariant>)
    ensures
        views(s + t) == views(s) + views(t),
{
    assert(views(s + t) =~= views(s) + views(t));
}

// ─── Technique notes ─────────────────────────────────────────────────────────
// The `technique` text recorded on each variant, one per category.

pub open spec fn swap_note(i: nat) -> Seq<char> {
    "swap positions "@ + decimal(i) + " and "@ + decimal(i + 1)
}

pub open spec fn omit_note(c: char, i: nat) -> Seq<char> {
    "omit char '"@ + seq![c] + "' at position "@ + decimal(i)
}

pub open spec fn insert_note(c: char, i: nat) -> Seq<char> {
    "insert '"@ + seq![c] + "' at position "@ + decimal(i)
}

pub open spec fn substitute_note(old: char, new: char, i: nat) -> Seq<char> {
    "substitute '"@ + seq![old] + "' \u{2192} '"@ + seq![new] + "' at position "@ + decimal(i)
}

pub open spec fn homoglyph_note(orig: char, repl: Seq<char>) -> Seq<char> {
    "'"@ + seq![orig] + "' \u{2192} '"@ + repl + "' (visual confusable)"@
}

pub open spec fn bit_note(bit: nat, i: nat, b: u8) -> Seq<char> {
    "bit "@ + decimal(bit) + " flipped in byte "@ + decimal(i) + " ('"@ + seq![b as char] + "')"@
}

pub open spec fn tld_note(old: Seq<char>, new: Seq<char>) -> Seq<char> {
    "."@ + old + " \u{2192} ."@ + new
}

pub open spec fn prefix_note(p: Seq<char>) -> Seq<char> {
    "prefix '"@ + p + "'"@
}

pub open spec fn prefix_com_note(p: Seq<char>) -> Seq<char> {
    "prefix '"@ + p + "' + .com TLD"@
}

pub open spec fn hyphen_note(i: nat) -> Seq<char> {
    "hyphen after position "@ + decimal(i)
}

pub open spec fn double_note(c: char, i: nat) -> Seq<char> {
    "double char '"@ + seq![c] + "' at position "@ + decimal(i)
}

pub open spec fn key_note(c: char, n: char, i: nat) -> Seq<char> {
    "key '"@ + seq![c] + "' \u{2192} adjacent '"@ + seq![n] + "' at position "@ + decimal(i)
}

fn swap_text(i: usize) -> (t: String)
    requires
        i < usize::MAX,
    ensures
        t@ == swap_note(i as nat),
{
    let mut t = String::from_str("swap positions ");
    push_decimal(&mut t, i);
    push_str(&mut t, " and ");
    push_decimal(&mut t, i + 1);
    t
}

fn omit_text(c: char, i: usize) -> (t: String)
    ensures
        t@ == omit_note(c, i as nat),
{
    let mut t = String::from_str("omit char '");
    string_push(&mut t, c);
    push_str(&mut t, "' at position ");
    push_decimal(&mut t, i);
    t
}

fn insert_text(c: char, i: usize) -> (t: String)
    ensures
        t@ == insert_note(c, i as nat),
{
    let mut t = String::from_str("insert '");
    string_push(&mut t, c);
    push_str(&mut t, "' at position ");
    push_decimal(&mut t, i);
    t
}

fn substitute_text(old: char, new: char, i: usize) -> (t: String)
    ensures
        t@ == substitute_note(old, new, i as nat),
{
    let mut t = String::from_str("substitute '");
    string_push(&mut t, old);
    push_str(&mut t, "' \u{2192} '");
    string_push(&mut t, new);
    push_str(&mut t, "' at position ");
    push_decimal(&mut t, i);
    t
}

fn homoglyph_text(orig: char, repl: &str) -> (t: String)
    ensures
        t@ == homoglyph_note(orig, repl@),
{
    let mut t = String::from_str("'");
    string_push(&mut t, orig);
    push_str(&mut t, "' \u{2192} '");
    push_str(&mut t, repl);
    push_str(&mut t, "' (visual confusable)");
    t
}

fn bit_text(bit: u8, i: usize, b: u8) -> (t: String)
    ensures
        t@ == bit_note(bit as nat, i as nat, b),
{
    let mut t = String::from_str("bit ");
    push_decimal(&mut t, bit as usize);
    push_str(&mut t, " flipped in byte ");
    push_decimal(&mut t, i);
    push_str(&mut t, " ('");
    string_push(&mut t, b as char);
    push_str(&mut t, "')");
    t
}

fn tld_text(old: &str, new: &str) -> (t: String)
    ensures
        t@ == tld_note(old@, new@),
{
    let mut t = String::from_str(".");
    push_str(&mut t, old);
    push_str(&mut t, " \u{2192} .");
    push_str(&mut t, new);
    t
}

fn prefix_text(p: &str) -> (t: String)
    ensures
        t@ == prefix_note(p@),
{
    let mut t = String::from_str("prefix '");
    push_str(&mut t, p);
    push_str(&mut t, "'");
    t
}

fn prefix_com_text(p: &str) -> (t: String)
    ensures
        t@ == prefix_com_note(p@),
{
    let mut t = String::from_str("prefix '");
    push_str(&mut t, p);
    push_str(&mut t, "' + .com TLD");
    t
}

fn hyphen_text(i: usize) -> (t: String)
    ensures
        t@ == hyphen_note(i as nat),
{
    let mut t = String::from_str("hyphen after position ");
    push_decimal(&mut t, i);
    t
}

fn double_text(c: char, i: usize) -> (t: String)
    ensures
        t@ == double_note(c, i as nat),
{
    let mut t = String::from_str("double char '");
    string_push(&mut t, c);
    push_str(&mut t, "' at position ");
    push_decimal(&mut t, i);
    t
}

fn key_text(c: char, n: char, i: usize) -> (t: String)
    ensures
        t@ == key_note(c, n, i as nat),
{
    let mut t = String::from_str("key '");
    string_push(&mut t, c);
    push_str(&mut t, "' \u{2192} adjacent '");
    string_push(&mut t, n);
    push_str(&mut t, "' at position ");
    push_decimal(&mut t, i);
    t
}

// ─── Permutation specifications ──────────────────────────────────────────────

/// The ASCII lowercase letter number `m` (0 is `a`, 25 is `z`).
pub open spec fn letter(m: int) -> char {
    ((97 + m) as u8) as char
}

/// `name` with the characters at `i` and `i + 1` exchanged.
pub open spec fn swapped(name: Seq<char>, i: int) -> Seq<char> {
    name.take(i) + seq![name[i + 1], name[i]] + name.skip(i + 2)
}

pub open spec fn transposition_fn(name: Seq<char>, tld: Seq<char>) -> spec_fn(int) -> Seq<VariantView> {
    |i: int| seq![variant_of(swapped(name, i), tld, VariantKind::Transposition, swap_note(i as nat))]
}

/// Every adjacent pair exchanged, left to right.
pub open spec fn transpositions_spec(name: Seq<char>, tld: Seq<char>) -> Seq<VariantView> {
    concat_upto(transposition_fn(name, tld), name.len() - 1)
}

pub open spec fn omission_fn(name: Seq<char>, tld: Seq<char>) -> spec_fn(int) -> Seq<VariantView> {
    |i: int|
        {
            let shorter = name.take(i) + name.skip(i + 1);
            if encode_utf8(shorter).len() < 2 {
                seq![]
            } else {
                seq![variant_of(shorter, tld, VariantKind::Omission, omit_note(name[i], i as nat))]
            }
        }
}

/// Every character deleted in turn, keeping labels of at least two bytes.
pub open spec fn omissions_spec(name: Seq<char>, tld: Seq<char>) -> Seq<VariantView> {
    concat_upto(omission_fn(name, tld), name.len() as int)
}

pub open spec fn insert_letter_fn(name: Seq<char>, tld: Seq<char>, i: int) -> spec_fn(int) -> Seq<VariantView> {
    |m: int|
        seq![
            variant_of(
                name.take(i) + seq![letter(m)] + name.skip(i),
                tld,
                VariantKind::Insertion,
                insert_note(letter(m), i as nat),
            ),
        ]
}

pub open spec fn insertion_fn(name: Seq<char>, tld: Seq<char>) -> spec_fn(int) -> Seq<VariantView> {
    |i: int| concat_upto(insert_letter_fn(name, tld, i), 26)
}

/// Every lowercase letter inserted at every position.
pub open spec fn insertions_spec(name: Seq<char>, tld: Seq<char>) -> Seq<VariantView> {
    concat_upto(insertion_fn(name, tld), name.len() + 1int)
}

pub open spec fn substitute_letter_fn(name: Seq<char>, tld: Seq<char>, i: int) -> spec_fn(int) -> Seq<VariantView> {
    |m: int|
        if letter(m) == name[i] {
            seq![]
        } else {
            seq![
                variant_of(
                    name.update(i, letter(m)),
                    tld,
                    VariantKind::Substitution,
                    substitute_note(name[i], letter(m), i as nat),
                ),
            ]
        }
}

pub open spec fn substitution_fn(name: Seq<char>, tld: Seq<char>) -> spec_fn(int) -> Seq<VariantView> {
    |i: int| concat_upto(substitute_letter_fn(name, tld, i), 26)
}

/// Every character replaced by every other lowercase letter.
pub open spec fn substitutions_spec(name: Seq<char>, tld: Seq<char>) -> Seq<VariantView> {
    concat_upto(substitution_fn(name, tld), name.len() as int)
}

/// Position of the first `c` in `s` (the length of `s` when there is none).
pub open spec fn first_index_of(s: Seq<char>, c: char) -> int
    decreases s.len(),
{
    if s.len() == 0 {
        0
    } else if s[0] == c {
        0
    } else {
        1 + first_index_of(s.drop_first(), c)
    }
}

/// `s` with its first `c` replaced by `rep`.
pub open spec fn replace_first(s: Seq<char>, c: char, rep: Seq<char>) -> Seq<char> {
    let i = first_index_of(s, c);
    s.take(i) + rep + s.skip(i + 1)
}

pub open spec fn homoglyph_repl_fn(lower: Seq<char>, tld: Seq<char>, o: char) -> spec_fn(int) -> Seq<VariantView> {
    |r: int|
        {
            let rep = homoglyphs_of(o)[r];
            let replaced = replace_first(lower, o, rep);
            if replaced == lower {
                seq![]
            } else {
                seq![variant_of(replaced, tld, VariantKind::Homoglyph, homoglyph_note(o, rep))]
            }
        }
}

pub open spec fn homoglyph_fn(lower: Seq<char>, tld: Seq<char>) -> spec_fn(int) -> Seq<VariantView> {
    |k: int|
        {
            let o = homoglyph_keys()[k];
            if lower.contains(o) {
                concat_upto(homoglyph_repl_fn(lower, tld, o), homoglyphs_of(o).len() as int)
            } else {
                seq![]
            }
        }
}

/// For each confusable character of the table present in the lowercased
/// label, its first occurrence replaced by each of its confusables.
pub open spec fn homoglyphs_spec(name: Seq<char>, tld: Seq<char>) -> Seq<VariantView> {
    concat_upto(homoglyph_fn(lowercase_of(name), tld), homoglyph_keys().len() as int)
}

/// Byte `b` with bit `m` flipped.
pub open spec fn flip_bit(b: u8, m: int) -> u8 {
    b ^ (1u8 << (m as u8))
}

pub open spec fn bit_fn(name: Seq<char>, tld: Seq<char>, i: int) -> spec_fn(int) -> Seq<VariantView> {
    |m: int|
        {
            let bytes = encode_utf8(name);
            let b = bytes[i];
            let f = flip_bit(b, m);
            if f == b || f < 97 || f > 122 {
                seq![]
            } else if valid_utf8(bytes.update(i, f)) {
                seq![
                    variant_of(
                        decode_utf8(bytes.update(i, f)),
                        tld,
                        VariantKind::BitSquat,
                        bit_note(m as nat, i as nat, b),
                    ),
                ]
            } else {
                seq![]
            }
        }
}

pub open spec fn bit_squat_fn(name: Seq<char>, tld: Seq<char>) -> spec_fn(int) -> Seq<VariantView> {
    |i: int| concat_upto(bit_fn(name, tld, i), 8)
}

/// Every single-bit flip of every UTF-8 byte of the label that gives a
/// lowercase ASCII letter and leaves valid UTF-8.
pub open spec fn bit_squats_spec(name: Seq<char>, tld: Seq<char>) -> Seq<VariantView> {
    concat_upto(bit_squat_fn(name, tld), encode_utf8(name).len() as int)
}

pub open spec fn tld_swap_fn(name: Seq<char>, tld: Seq<char>) -> spec_fn(int) -> Seq<VariantView> {
    |k: int|
        {
            let t = tld_table()[k];
            if t == tld {
                seq![]
            } else {
                seq![variant_of(name, t, VariantKind::TldSwap, tld_note(tld, t))]
            }
        }
}

/// The label under every other TLD of the table.
pub open spec fn tld_swaps_spec(name: Seq<char>, tld: Seq<char>) -> Seq<VariantView> {
    concat_upto(tld_swap_fn(name, tld), tld_table().len() as int)
}

pub open spec fn subdomain_fn(name: Seq<char>, tld: Seq<char>) -> spec_fn(int) -> Seq<VariantView> {
    |k: int|
        {
            let p = prefix_table()[k];
            let label = join_dot(p, name);
            let first = seq![variant_of(label, tld, VariantKind::SubdomainPrefix, prefix_note(p))];
            if tld != "com"@ {
                first + seq![
                    variant_of(label, "com"@, VariantKind::SubdomainPrefix, prefix_com_note(p)),
                ]
            } else {
                first
            }
        }
}

/// Every prefix of the table as a subdomain, under the original TLD and
/// (when that is not `com`) under `com`.
pub open spec fn subdomain_prefixes_spec(name: Seq<char>, tld: Seq<char>) -> Seq<VariantView> {
    concat_upto(subdomain_fn(name, tld), prefix_table().len() as int)
}

pub open spec fn hyphen_fn(name: Seq<char>, tld: Seq<char>) -> spec_fn(int) -> Seq<VariantView> {
    |i: int|
        if i < 1 {
            seq![]
        } else {
            seq![
                variant_of(
                    name.take(i) + seq!['-'] + name.skip(i),
                    tld,
                    VariantKind::HyphenInsertion,
                    hyphen_note(i as nat),
                ),
            ]
        }
}

/// A hyphen between every pair of adjacent characters.
pub open spec fn hyphen_insertions_spec(name: Seq<char>, tld: Seq<char>) -> Seq<VariantView> {
    concat_upto(hyphen_fn(name, tld), name.len() as int)
}

pub open spec fn double_fn(name: Seq<char>, tld: Seq<char>) -> spec_fn(int) -> Seq<VariantView> {
    |i: int|
        seq![
            variant_of(
                name.take(i) + seq![name[i]] + name.skip(i),
                tld,
                VariantKind::DoubleChar,
                double_note(name[i], i as nat),
            ),
        ]
}

/// Every character written twice.
pub open spec fn double_chars_spec(name: Seq<char>, tld: Seq<char>) -> Seq<VariantView> {
    concat_upto(double_fn(name, tld), name.len() as int)
}

pub open spec fn key_neighbour_fn(name: Seq<char>, tld: Seq<char>, i: int) -> spec_fn(int) -> Seq<VariantView> {
    |m: int|
        {
            let nb = keyboard_neighbours(name[i])[m];
            seq![
                variant_of(
                    name.update(i, nb),
                    tld,
                    VariantKind::KeyboardAdjacent,
                    key_note(name[i], nb, i as nat),
                ),
            ]
        }
}

pub open spec fn keyboard_fn(name: Seq<char>, tld: Seq<char>) -> spec_fn(int) -> Seq<VariantView> {
    |i: int| concat_upto(key_neighbour_fn(name, tld, i), keyboard_neighbours(name[i]).len() as int)
}

/// Every character replaced by each of its QWERTY neighbours.
pub open spec fn keyboard_adjacent_spec(name: Seq<char>, tld: Seq<char>) -> Seq<VariantView> {
    concat_upto(keyboard_fn(name, tld), name.len() as int)
}

/// Every candidate, category by category, before repeated FQDNs and the
/// brand's own domain are removed.
pub open spec fn candidates(name: Seq<char>, tld: Seq<char>) -> Seq<VariantView> {
    transpositions_spec(name, tld) + omissions_spec(name, tld) + insertions_spec(name, tld)
        + substitutions_spec(name, tld) + homoglyphs_spec(name, tld) + bit_squats_spec(name, tld)
        + tld_swaps_spec(name, tld) + subdomain_prefixes_spec(name, tld)
        + hyphen_insertions_spec(name, tld) + double_chars_spec(name, tld)
        + keyboard_adjacent_spec(name, tld)
}

/// Whether some element of `s` has FQDN `f`.
pub open spec fn has_fqdn(s: Seq<VariantView>, f: Seq<char>) -> bool {
    exists|i: int| 0 <= i < s.len() && s[i].fqdn == f
}

/// `s` keeping only the first variant of each FQDN, in order.
pub open spec fn first_per_fqdn(s: Seq<VariantView>) -> Seq<VariantView>
    decreases s.len(),
{
    if s.len() == 0 {
        seq![]
    } else {
        let kept = first_per_fqdn(s.drop_last());
        if has_fqdn(kept, s.last().fqdn) {
            kept
        } else {
            kept.push(s.last())
        }
    }
}

/// `s` without the variants whose FQDN is `f`.
pub open spec fn without_fqdn(s: Seq<VariantView>, f: Seq<char>) -> Seq<VariantView>
    decreases s.len(),
{
    if s.len() == 0 {
        seq![]
    } else {
        let kept = without_fqdn(s.drop_last(), f);
        if s.last().fqdn == f {
            kept
        } else {
            kept.push(s.last())
        }
    }
}

/// What `generate_all` returns for a generator holding `name` and `tld`.
pub open spec fn all_variants(name: Seq<char>, tld: Seq<char>) -> Seq<VariantView> {
    without_fqdn(first_per_fqdn(candidates(name, tld)), join_dot(name, tld))
}

// ─── Domain splitting ────────────────────────────────────────────────────────

/// Position of the last `c` in `s`, or -1 when there is none.
pub open spec fn last_index_of(s: Seq<char>, c: char) -> int
    decreases s.len(),
{
    if s.len() == 0 {
        -1
    } else if s.last() == c {
        s.len() - 1
    } else {
        last_index_of(s.drop_last(), c)
    }
}

/// Where a domain is cut into label and TLD: the second-to-last `.` when
/// there are two or more (the TLD is then the last two labels, as in
/// "co.uk"), the only `.` when there is one, -1 when there is none.
pub open spec fn tld_cut(domain: Seq<char>) -> int {
    let j = last_index_of(domain, '.');
    if j < 0 {
        -1
    } else {
        let i = last_index_of(domain.take(j), '.');
        if i >= 0 {
            i
        } else {
            j
        }
    }
}

/// The label and the TLD of a domain, lowercased, cut at `tld_cut`: a
/// domain of three or more labels takes its last two labels as the TLD; a
/// domain without a `.` is a label under `com`.
pub open spec fn split_domain_spec(domain: Seq<char>) -> (Seq<char>, Seq<char>) {
    let k = tld_cut(domain);
    if k < 0 {
        (lowercase_of(domain), "com"@)
    } else {
        (lowercase_of(domain.take(k)), lowercase_of(domain.skip(k + 1)))
    }
}

proof fn lemma_last_index_is(s: Seq<char>, c: char, r: int)
    requires
        -1 <= r < s.len(),
        r >= 0 ==> s[r] == c,
        forall|j: int| r < j < s.len() ==> s[j] != c,
    ensures
        last_index_of(s, c) == r,
    decreases s.len(),
{
    if s.len() > 0 && r < s.len() - 1 {
        let t = s.drop_last();
        assert forall|j: int| r < j < t.len() implies t[j] != c by {
            assert(t[j] == s[j]);
        }
        lemma_last_index_is(t, c, r);
    }
}

/// Position of the last `c` among the first `end` characters of `v`.
fn find_last_char(v: &Vec<char>, c: char, end: usize) -> (r: Option<usize>)
    requires
        end <= v@.len(),
    ensures
        r matches Some(k) ==> k == last_index_of(v@.take(end as int), c),
        r is None ==> last_index_of(v@.take(end as int), c) == -1,
{
    let ghost p = v@.take(end as int);
    let mut k = end;
    while k > 0
        invariant
            k <= end <= v@.len(),
            p == v@.take(end as int),
            forall|j: int| k <= j < end ==> v@[j] != c,
        decreases k,
    {
        if v[k - 1] == c {
            proof {
                lemma_last_index_is(p, c, k - 1);
            }
            return Some(k - 1);
        }
        k = k - 1;
    }
    proof {
        lemma_last_index_is(p, c, -1);
    }
    None
}

proof fn lemma_first_index_of(s: Seq<char>, c: char)
    ensures
        0 <= first_index_of(s, c) <= s.len(),
        s.contains(c) <==> first_index_of(s, c) < s.len(),
        first_index_of(s, c) < s.len() ==> s[first_index_of(s, c)] == c,
        forall|j: int| 0 <= j < first_index_of(s, c) ==> s[j] != c,
    decreases s.len(),
{
    if s.len() > 0 && s[0] != c {
        lemma_first_index_of(s.drop_first(), c);
        if s.contains(c) {
            let k = choose|k: int| 0 <= k < s.len() && s[k] == c;
            assert(s.drop_first()[k - 1] == c);
        }
        if s.drop_first().contains(c) {
            let k = choose|k: int| 0 <= k < s.drop_first().len() && s.drop_first()[k] == c;
            assert(s[k + 1] == c);
        }
        assert forall|j: int| 0 <= j < first_index_of(s, c) implies s[j] != c by {
            if j > 0 {
                assert(s[j] == s.drop_first()[j - 1]);
            }
        }
    } else if s.len() > 0 {
        assert(s[0] == c);
    }
}

/// Position of the first `c` in `v` (its length when there is none).
fn find_char(v: &Vec<char>, c: char) -> (r: usize)
    ensures
        r == first_index_of(v@, c),
{
    proof {
        lemma_first_index_of(v@, c);
    }
    let mut i: usize = 0;
    while i < v.len()
        invariant
            i <= v@.len(),
            forall|j: int| 0 <= j < i ==> v@[j] != c,
        decreases v@.len() - i,
    {
        if v[i] == c {
            proof {
                lemma_first_index_of(v@, c);
            }
            return i;
        }
        i = i + 1;
    }
    i
}

/// Split "brand.io" into ("brand", "io"), lowercased. Multi-part TLDs
/// like "co.uk" are handled naively: with three or more labels the last two
/// are the TLD, so "sub.brand.co.uk" gives ("sub.brand", "co.uk"); a domain
/// without a `.` gets the TLD "com".
pub fn split_domain(domain: &str) -> (r: (String, String))
    ensures
        (r.0@, r.1@) == split_domain_spec(domain@),
{
    let chars = chars_of(domain);
    let n = chars.len();
    assert(chars@.take(n as int) =~= domain@);
    let cut = match find_last_char(&chars, '.', n) {
        None => None,
        Some(j) => {
            proof {
                lemma_last_index_of(domain@, '.');
            }
            assert(chars@.take(j as int) =~= domain@.take(j as int));
            match find_last_char(&chars, '.', j) {
                Some(i) => Some(i),
                None => Some(j),
            }
        },
    };
    match cut {
        Some(k) => {
            proof {
                lemma_last_index_of(domain@, '.');
                lemma_last_index_of(domain@.take(last_index_of(domain@, '.')), '.');
            }
            let mut head = String::new();
            push_range(&mut head, &chars, 0, k);
            let mut rest = String::new();
            push_range(&mut rest, &chars, k + 1, n);
            assert(chars@.subrange(0, k as int) =~= domain@.take(k as int));
            assert(chars@.subrange(k + 1, n as int) =~= domain@.skip(k + 1));
            (lowercase(head.as_str()), lowercase(rest.as_str()))
        },
        None => (lowercase(domain), String::from_str("com")),
    }
}

proof fn lemma_last_index_of(s: Seq<char>, c: char)
    ensures
        -1 <= last_index_of(s, c) < s.len(),
    decreases s.len(),
{
    if s.len() > 0 && s.last() != c {
        lemma_last_index_of(s.drop_last(), c);
    }
}

// ─── Generator ───────────────────────────────────────────────────────────────

/// Produces lookalike variants of one brand domain.
pub struct TypoGenerator {
    name: String,
    tld: String,
}

impl View for TypoGenerator {
    /// The label and the TLD of the brand domain.
    type V = (Seq<char>, Seq<char>);

    closed spec fn view(&self) -> (Seq<char>, Seq<char>) {
        (self.name@, self.tld@)
    }
}

impl TypoGenerator {
    /// `domain`, e.g. "brandefense.io"
    pub fn new(domain: &str) -> (g: Self)
        ensures
            g@ == split_domain_spec(domain@),
    {
        let (name, tld) = split_domain(domain);
        TypoGenerator { name, tld }
    }

    fn make(&self, name: &str, tld: &str, kind: VariantKind, technique: &str) -> (v: DomainVariant)
        ensures
            v@ == variant_of(name@, tld@, kind, technique@),
    {
        make_variant(name, tld, kind, technique)
    }

    fn make_sub(&self, prefix: &str, tld: &str, technique: &str) -> (v: DomainVariant)
        ensures
            v@ == variant_of(
                join_dot(prefix@, self@.0),
                tld@,
                VariantKind::SubdomainPrefix,
                technique@,
            ),
    {
        let mut name = String::from_str(prefix);
        string_push(&mut name, '.');
        push_str(&mut name, self.name.as_str());
        assert(name@ =~= join_dot(prefix@, self@.0));
        let mut fqdn = String::from_str(name.as_str());
        string_push(&mut fqdn, '.');
        push_str(&mut fqdn, tld);
        assert(fqdn@ =~= join_dot(name@, tld@));
        DomainVariant {
            fqdn,
            name,
            tld: String::from_str(tld),
            kind: VariantKind::SubdomainPrefix,
            technique: String::from_str(technique),
        }
    }
}

/// The variant with label `name` under `tld`.
fn make_variant(name: &str, tld: &str, kind: VariantKind, technique: &str) -> (v: DomainVariant)
    ensures
        v@ == variant_of(name@, tld@, kind, technique@),
{
    let mut fqdn = String::from_str(name);
    string_push(&mut fqdn, '.');
    push_str(&mut fqdn, tld);
    assert(fqdn@ =~= join_dot(name@, tld@));
    DomainVariant {
        fqdn,
        name: String::from_str(name),
        tld: String::from_str(tld),
        kind,
        technique: String::from_str(technique),
    }
}

/// Whether some variant in `list` has FQDN `f`.
fn contains_fqdn(list: &Vec<DomainVariant>, f: &String) -> (b: bool)
    ensures
        b == has_fqdn(views(list@), f@),
{
    let mut j: usize = 0;
    while j < list.len()
        invariant
            j <= list@.len(),
            forall|k: int| 0 <= k < j ==> list@[k].fqdn@ != f@,
        decreases list@.len() - j,
    {
        if list[j].fqdn == *f {
            assert(views(list@)[j as int].fqdn == f@);
            return true;
        }
        j = j + 1;
    }
    assert forall|k: int| 0 <= k < views(list@).len() implies views(list@)[k].fqdn != f@ by {
        assert(views(list@)[k] == list@[k]@);
    }
    false
}

/// `list` keeping only the first variant of each FQDN, in order.
fn keep_first_per_fqdn(list: Vec<DomainVariant>) -> (out: Vec<DomainVariant>)
    ensures
        views(out@) == first_per_fqdn(views(list@)),
{
    let ghost all = list@;
    let mut rest = list;
    let mut out: Vec<DomainVariant> = Vec::new();
    assert(views(all).take(0) =~= Seq::<VariantView>::empty());
    while rest.len() > 0
        invariant
            rest@.len() <= all.len(),
            rest@ == all.skip(all.len() - rest@.len()),
            views(out@) == first_per_fqdn(views(all).take(all.len() - rest@.len())),
        decreases rest@.len(),
    {
        let ghost k = all.len() - rest@.len();
        let v = rest.remove(0);
        assert(v == all[k]);
        assert(rest@ =~= all.skip(k + 1));
        let ghost prefix = views(all).take(k + 1);
        assert(prefix.drop_last() =~= views(all).take(k));
        assert(prefix.last() == v@);
        if !contains_fqdn(&out, &v.fqdn) {
            proof {
                lemma_views_push(out@, v);
            }
            out.push(v);
        }
    }
    assert(views(all).take(all.len() as int) =~= views(all));
    out
}

/// `list` without the variants whose FQDN is `f`.
fn drop_fqdn(list: Vec<DomainVariant>, f: &String) -> (out: Vec<DomainVariant>)
    ensures
        views(out@) == without_fqdn(views(list@), f@),
{
    let ghost all = list@;
    let mut rest = list;
    let mut out: Vec<DomainVariant> = Vec::new();
    assert(views(all).take(0) =~= Seq::<VariantView>::empty());
    while rest.len() > 0
        invariant
            rest@.len() <= all.len(),
            rest@ == all.skip(all.len() - rest@.len()),
            views(out@) == without_fqdn(views(all).take(all.len() - rest@.len()), f@),
        decreases rest@.len(),
    {
        let ghost k = all.len() - rest@.len();
        let v = rest.remove(0);
        assert(v == all[k]);
        assert(rest@ =~= all.skip(k + 1));
        let ghost prefix = views(all).take(k + 1);
        assert(prefix.drop_last() =~= views(all).take(k));
        assert(prefix.last() == v@);
        if v.fqdn != *f {
            proof {
                lemma_views_push(out@, v);
            }
            out.push(v);
        }
    }
    assert(views(all).take(all.len() as int) =~= views(all));
    out
}

impl TypoGenerator {
    /// Generate every variant category; keep the first variant of each FQDN
    /// and never return the brand's own domain.
    pub fn generate_all(&self) -> (out: Vec<DomainVariant>)
        ensures
            views(out@) == all_variants(self@.0, self@.1),
    {
        let mut results: Vec<DomainVariant> = Vec::new();
        let mut part = self.transpositions();
        proof { lemma_views_add(results@, part@); }
        results.append(&mut part);
        let mut part = self.omissions();
        proof { lemma_views_add(results@, part@); }
        results.append(&mut part);
        let mut part = self.insertions();
        proof { lemma_views_add(results@, part@); }
        results.append(&mut part);
        let mut part = self.substitutions();
        proof { lemma_views_add(results@, part@); }
        results.append(&mut part);
        let mut part = self.homoglyphs();
        proof { lemma_views_add(results@, part@); }
        results.append(&mut part);
        let mut part = self.bit_squats();
        proof { lemma_views_add(results@, part@); }
        results.append(&mut part);
        let mut part = self.tld_swaps();
        proof { lemma_views_add(results@, part@); }
        results.append(&mut part);
        let mut part = self.subdomain_prefixes();
        proof { lemma_views_add(results@, part@); }
        results.append(&mut part);
        let mut part = self.hyphen_insertions();
        proof { lemma_views_add(results@, part@); }
        results.append(&mut part);
        let mut part = self.double_chars();
        proof { lemma_views_add(results@, part@); }
        results.append(&mut part);
        let mut part = self.keyboard_adjacent();
        proof { lemma_views_add(results@, part@); }
        results.append(&mut part);
        assert(views(results@) =~= candidates(self@.0, self@.1));

        // Keep the first variant of each FQDN.
        let results = keep_first_per_fqdn(results);

        // Never return the legitimate domain itself.
        let mut legit = String::from_str(self.name.as_str());
        string_push(&mut legit, '.');
        push_str(&mut legit, self.tld.as_str());
        assert(legit@ =~= join_dot(self@.0, self@.1));
        drop_fqdn(results, &legit)
    }
}

/// The homoglyph variants of an already lowercased label under `tld`: for
/// each confusable character of the table present in the label, its first
/// occurrence replaced by each of its confusables.
pub fn homoglyph_variants(name_lower: &str, tld: &str) -> (out: Vec<DomainVariant>)
    ensures
        views(out@) == concat_upto(homoglyph_fn(name_lower@, tld@), homoglyph_keys().len() as int),
{
    let lower = chars_of(name_lower);
    let lower_owned = name_lower.to_owned();
    let n = lower.len();
    let keys = homoglyph_key_list();
    let ghost f = homoglyph_fn(name_lower@, tld@);
    let mut out: Vec<DomainVariant> = Vec::new();
    let mut k: usize = 0;
    while k < keys.len()
        invariant
            lower@ == name_lower@,
            lower_owned@ == lower@,
            n == lower@.len(),
            keys@ == homoglyph_keys(),
            k <= keys@.len(),
            f == homoglyph_fn(name_lower@, tld@),
            views(out@) == concat_upto(f, k as int),
        decreases keys@.len() - k,
    {
        let original = keys[k];
        let idx = find_char(&lower, original);
        proof {
            lemma_first_index_of(lower@, original);
        }
        if idx < n {
            let reps = homoglyph_list(original);
            let ghost g = homoglyph_repl_fn(lower@, tld@, original);
            let ghost before = views(out@);
            let mut r: usize = 0;
            while r < reps.len()
                invariant
                    lower@ == name_lower@,
                    lower_owned@ == lower@,
                    n == lower@.len(),
                    idx < n,
                    idx == first_index_of(lower@, original),
                    str_views(reps@) == homoglyphs_of(original),
                    r <= reps@.len(),
                    g == homoglyph_repl_fn(lower@, tld@, original),
                    views(out@) == before + concat_upto(g, r as int),
                decreases reps@.len() - r,
            {
                let replacement = reps[r];
                assert(replacement@ == homoglyphs_of(original)[r as int]);
                let mut new_name = String::new();
                push_range(&mut new_name, &lower, 0, idx);
                push_str(&mut new_name, replacement);
                push_range(&mut new_name, &lower, idx + 1, n);
                assert(new_name@ =~= replace_first(lower@, original, replacement@));
                if new_name != lower_owned {
                    let technique = homoglyph_text(original, replacement);
                    let v = make_variant(
                        new_name.as_str(),
                        tld,
                        VariantKind::Homoglyph,
                        technique.as_str(),
                    );
                    proof {
                        lemma_views_push(out@, v);
                    }
                    out.push(v);
                }
                r = r + 1;
                assert(views(out@) =~= before + concat_upto(g, r as int));
            }
        }
        k = k + 1;
        assert(views(out@) =~= concat_upto(f, k as int));
    }
    out
}


impl TypoGenerator {
    /// Swap adjacent character pairs: "brand" gives "rband", "barnd", …
    pub fn transpositions(&self) -> (out: Vec<DomainVariant>)
        ensures
            views(out@) == transpositions_spec(self@.0, self@.1),
    {
        let chars = chars_of(self.name.as_str());
        let n = chars.len();
        let count = n.saturating_sub(1);
        let ghost f = transposition_fn(self@.0, self@.1);
        let mut out: Vec<DomainVariant> = Vec::new();
        let mut i: usize = 0;
        while i < count
            invariant
                chars@ == self@.0,
                n == chars@.len(),
                count == n - 1 || (n == 0 && count == 0),
                i <= count,
                f == transposition_fn(self@.0, self@.1),
                views(out@) == concat_upto(f, i as int),
            decreases count - i,
        {
            let mut name = String::new();
            push_range(&mut name, &chars, 0, i);
            string_push(&mut name, chars[i + 1]);
            string_push(&mut name, chars[i]);
            push_range(&mut name, &chars, i + 2, n);
            assert(name@ =~= swapped(chars@, i as int));
            let technique = swap_text(i);
            let v = self.make(
                name.as_str(),
                self.tld.as_str(),
                VariantKind::Transposition,
                technique.as_str(),
            );
            proof {
                lemma_views_push(out@, v);
            }
            out.push(v);
            i = i + 1;
            assert(views(out@) =~= concat_upto(f, i as int));
        }
        out
    }

    /// Delete each character: "brand" gives "rand", "band", …, keeping
    /// labels of at least two bytes.
    pub fn omissions(&self) -> (out: Vec<DomainVariant>)
        ensures
            views(out@) == omissions_spec(self@.0, self@.1),
    {
        let chars = chars_of(self.name.as_str());
        let n = chars.len();
        let ghost f = omission_fn(self@.0, self@.1);
        let mut out: Vec<DomainVariant> = Vec::new();
        let mut i: usize = 0;
        while i < n
            invariant
                chars@ == self@.0,
                n == chars@.len(),
                i <= n,
                f == omission_fn(self@.0, self@.1),
                views(out@) == concat_upto(f, i as int),
            decreases n - i,
        {
            let mut name = String::new();
            push_range(&mut name, &chars, 0, i);
            push_range(&mut name, &chars, i + 1, n);
            assert(name@ =~= chars@.take(i as int) + chars@.skip(i + 1));
            let label = name.as_str();
            let byte_len = label.as_bytes().len();
            assert(byte_len as int == encode_utf8(name@).len());
            let long_enough = byte_len >= 2;
            assert(f(i as int) == if long_enough {
                seq![
                    variant_of(name@, self@.1, VariantKind::Omission, omit_note(chars@[i as int], i as nat)),
                ]
            } else {
                seq![]
            });
            if long_enough {
                let technique = omit_text(chars[i], i);
                let v = self.make(
                    name.as_str(),
                    self.tld.as_str(),
                    VariantKind::Omission,
                    technique.as_str(),
                );
                proof {
                    lemma_views_push(out@, v);
                }
                out.push(v);
            }
            i = i + 1;
            assert(views(out@) =~= concat_upto(f, i as int));
        }
        out
    }

    /// Insert each lowercase letter at every position.
    pub fn insertions(&self) -> (out: Vec<DomainVariant>)
        ensures
            views(out@) == insertions_spec(self@.0, self@.1),
    {
        let chars = chars_of(self.name.as_str());
        let n = chars.len();
        let ghost f = insertion_fn(self@.0, self@.1);
        let mut out: Vec<DomainVariant> = Vec::new();
        let mut i: usize = 0;
        loop
            invariant_except_break
                chars@ == self@.0,
                n == chars@.len(),
                i <= n,
                f == insertion_fn(self@.0, self@.1),
                views(out@) == concat_upto(f, i as int),
            ensures
                views(out@) == concat_upto(f, n + 1),
            decreases n - i,
        {
            let ghost g = insert_letter_fn(self@.0, self@.1, i as int);
            let ghost before = views(out@);
            let mut m: u8 = 0;
            while m < 26
                invariant
                    chars@ == self@.0,
                    n == chars@.len(),
                    i <= n,
                    m <= 26,
                    g == insert_letter_fn(self@.0, self@.1, i as int),
                    views(out@) == before + concat_upto(g, m as int),
                decreases 26 - m,
            {
                let ins = (97 + m) as char;
                let mut name = String::new();
                push_range(&mut name, &chars, 0, i);
                string_push(&mut name, ins);
                push_range(&mut name, &chars, i, n);
                assert(name@ =~= chars@.take(i as int) + seq![letter(m as int)] + chars@.skip(
                    i as int,
                ));
                let technique = insert_text(ins, i);
                let v = self.make(
                    name.as_str(),
                    self.tld.as_str(),
                    VariantKind::Insertion,
                    technique.as_str(),
                );
                proof {
                    lemma_views_push(out@, v);
                }
                out.push(v);
                m = m + 1;
                assert(views(out@) =~= before + concat_upto(g, m as int));
            }
            assert(views(out@) =~= concat_upto(f, i + 1));
            if i == n {
                break;
            }
            i = i + 1;
        }
        out
    }

    /// Replace each character with every other lowercase letter.
    pub fn substitutions(&self) -> (out: Vec<DomainVariant>)
        ensures
            views(out@) == substitutions_spec(self@.0, self@.1),
    {
        let chars = chars_of(self.name.as_str());
        let n = chars.len();
        let ghost f = substitution_fn(self@.0, self@.1);
        let mut out: Vec<DomainVariant> = Vec::new();
        let mut i: usize = 0;
        while i < n
            invariant
                chars@ == self@.0,
                n == chars@.len(),
                i <= n,
                f == substitution_fn(self@.0, self@.1),
                views(out@) == concat_upto(f, i as int),
            decreases n - i,
        {
            let ghost g = substitute_letter_fn(self@.0, self@.1, i as int);
            let ghost before = views(out@);
            let mut m: u8 = 0;
            while m < 26
                invariant
                    chars@ == self@.0,
                    n == chars@.len(),
                    i < n,
                    m <= 26,
                    g == substitute_letter_fn(self@.0, self@.1, i as int),
                    views(out@) == before + concat_upto(g, m as int),
                decreases 26 - m,
            {
                let sub = (97 + m) as char;
                if sub != chars[i] {
                    let mut name = String::new();
                    push_range(&mut name, &chars, 0, i);
                    string_push(&mut name, sub);
                    push_range(&mut name, &chars, i + 1, n);
                    assert(name@ =~= chars@.update(i as int, letter(m as int)));
                    let technique = substitute_text(chars[i], sub, i);
                    let v = self.make(
                        name.as_str(),
                        self.tld.as_str(),
                        VariantKind::Substitution,
                        technique.as_str(),
                    );
                    proof {
                        lemma_views_push(out@, v);
                    }
                    out.push(v);
                }
                m = m + 1;
                assert(views(out@) =~= before + concat_upto(g, m as int));
            }
            i = i + 1;
            assert(views(out@) =~= concat_upto(f, i as int));
        }
        out
    }

    /// Replace the first occurrence of each confusable character with each of
    /// its visual confusables, on the lowercased label.
    pub fn homoglyphs(&self) -> (out: Vec<DomainVariant>)
        ensures
            views(out@) == homoglyphs_spec(self@.0, self@.1),
    {
        let name_lower = lowercase(self.name.as_str());
        homoglyph_variants(name_lower.as_str(), self.tld.as_str())
    }

    /// Bit-squat: flip one bit in each byte of the label, keeping results
    /// that are lowercase letters and valid UTF-8.
    pub fn bit_squats(&self) -> (out: Vec<DomainVariant>)
        ensures
            views(out@) == bit_squats_spec(self@.0, self@.1),
    {
        let bytes = self.name.as_str().as_bytes();
        let ghost f = bit_squat_fn(self@.0, self@.1);
        let mut out: Vec<DomainVariant> = Vec::new();
        let mut i: usize = 0;
        while i < bytes.len()
            invariant
                bytes@ == encode_utf8(self@.0),
                i <= bytes@.len(),
                f == bit_squat_fn(self@.0, self@.1),
                views(out@) == concat_upto(f, i as int),
            decreases bytes@.len() - i,
        {
            let ghost g = bit_fn(self@.0, self@.1, i as int);
            let ghost before = views(out@);
            let mut bit: u8 = 0;
            while bit < 8
                invariant
                    bytes@ == encode_utf8(self@.0),
                    i < bytes@.len(),
                    bit <= 8,
                    g == bit_fn(self@.0, self@.1, i as int),
                    views(out@) == before + concat_upto(g, bit as int),
                decreases 8 - bit,
            {
                let b = bytes[i];
                let flipped: u8 = b ^ (1u8 << bit);
                assert(flipped == flip_bit(b, bit as int));
                if !(flipped == b || flipped < 97 || flipped > 122) {
                    let mut changed = slice_to_vec(bytes);
                    changed.set(i, flipped);
                    let ghost changed_bytes = changed@;
                    assert(changed_bytes == bytes@.update(i as int, flipped));
                    match string_from_utf8(changed) {
                        Some(name) => {
                            let technique = bit_text(bit, i, b);
                            let v = self.make(
                                name.as_str(),
                                self.tld.as_str(),
                                VariantKind::BitSquat,
                                technique.as_str(),
                            );
                            proof {
                                lemma_views_push(out@, v);
                            }
                            out.push(v);
                        },
                        None => {},
                    }
                }
                bit = bit + 1;
                assert(views(out@) =~= before + concat_upto(g, bit as int));
            }
            i = i + 1;
            assert(views(out@) =~= concat_upto(f, i as int));
        }
        out
    }

    /// The label under every other common TLD.
    pub fn tld_swaps(&self) -> (out: Vec<DomainVariant>)
        ensures
            views(out@) == tld_swaps_spec(self@.0, self@.1),
    {
        let tlds = tld_list();
        let ghost f = tld_swap_fn(self@.0, self@.1);
        let mut out: Vec<DomainVariant> = Vec::new();
        let mut k: usize = 0;
        while k < tlds.len()
            invariant
                str_views(tlds@) == tld_table(),
                k <= tlds@.len(),
                f == tld_swap_fn(self@.0, self@.1),
                views(out@) == concat_upto(f, k as int),
            decreases tlds@.len() - k,
        {
            let t = tlds[k];
            assert(t@ == tld_table()[k as int]);
            let owned = String::from_str(t);
            if owned != self.tld {
                let technique = tld_text(self.tld.as_str(), t);
                let v = self.make(
                    self.name.as_str(),
                    t,
                    VariantKind::TldSwap,
                    technique.as_str(),
                );
                proof {
                    lemma_views_push(out@, v);
                }
                out.push(v);
            }
            k = k + 1;
            assert(views(out@) =~= concat_upto(f, k as int));
        }
        out
    }

    /// Prepend common phishing subdomain prefixes, under the original TLD
    /// and, when that is not `com`, under `com` too.
    pub fn subdomain_prefixes(&self) -> (out: Vec<DomainVariant>)
        ensures
            views(out@) == subdomain_prefixes_spec(self@.0, self@.1),
    {
        let prefixes = prefix_list();
        let com = String::from_str("com");
        let ghost f = subdomain_fn(self@.0, self@.1);
        let mut out: Vec<DomainVariant> = Vec::new();
        let mut k: usize = 0;
        while k < prefixes.len()
            invariant
                str_views(prefixes@) == prefix_table(),
                com@ == "com"@,
                k <= prefixes@.len(),
                f == subdomain_fn(self@.0, self@.1),
                views(out@) == concat_upto(f, k as int),
            decreases prefixes@.len() - k,
        {
            let prefix = prefixes[k];
            assert(prefix@ == prefix_table()[k as int]);
            let technique = prefix_text(prefix);
            let v = self.make_sub(prefix, self.tld.as_str(), technique.as_str());
            proof {
                lemma_views_push(out@, v);
            }
            out.push(v);
            if self.tld != com {
                let technique = prefix_com_text(prefix);
                let w = self.make_sub(prefix, "com", technique.as_str());
                proof {
                    lemma_views_push(out@, w);
                }
                out.push(w);
            }
            k = k + 1;
            assert(views(out@) =~= concat_upto(f, k as int));
        }
        out
    }

    /// Insert a hyphen between each pair of adjacent characters.
    pub fn hyphen_insertions(&self) -> (out: Vec<DomainVariant>)
        ensures
            views(out@) == hyphen_insertions_spec(self@.0, self@.1),
    {
        let chars = chars_of(self.name.as_str());
        let n = chars.len();
        let ghost f = hyphen_fn(self@.0, self@.1);
        let mut out: Vec<DomainVariant> = Vec::new();
        if n == 0 {
            return out;
        }
        assert(f(0) == Seq::<VariantView>::empty());
        assert(concat_upto(f, 0) == Seq::<VariantView>::empty());
        assert(views(out@) =~= concat_upto(f, 1));
        let mut i: usize = 1;
        while i < n
            invariant
                chars@ == self@.0,
                n == chars@.len(),
                1 <= i <= n,
                f == hyphen_fn(self@.0, self@.1),
                views(out@) == concat_upto(f, i as int),
            decreases n - i,
        {
            let mut name = String::new();
            push_range(&mut name, &chars, 0, i);
            string_push(&mut name, '-');
            push_range(&mut name, &chars, i, n);
            assert(name@ =~= chars@.take(i as int) + seq!['-'] + chars@.skip(i as int));
            let technique = hyphen_text(i);
            let v = self.make(
                name.as_str(),
                self.tld.as_str(),
                VariantKind::HyphenInsertion,
                technique.as_str(),
            );
            proof {
                lemma_views_push(out@, v);
            }
            out.push(v);
            i = i + 1;
            assert(views(out@) =~= concat_upto(f, i as int));
        }
        out
    }

    /// Repeat each character: "brand" gives "bbrand", "brrand", …
    pub fn double_chars(&self) -> (out: Vec<DomainVariant>)
        ensures
            views(out@) == double_chars_spec(self@.0, self@.1),
    {
        let chars = chars_of(self.name.as_str());
        let n = chars.len();
        let ghost f = double_fn(self@.0, self@.1);
        let mut out: Vec<DomainVariant> = Vec::new();
        let mut i: usize = 0;
        while i < n
            invariant
                chars@ == self@.0,
                n == chars@.len(),
                i <= n,
                f == double_fn(self@.0, self@.1),
                views(out@) == concat_upto(f, i as int),
            decreases n - i,
        {
            let mut name = String::new();
            push_range(&mut name, &chars, 0, i);
            string_push(&mut name, chars[i]);
            push_range(&mut name, &chars, i, n);
            assert(name@ =~= chars@.take(i as int) + seq![chars@[i as int]] + chars@.skip(
                i as int,
            ));
            let technique = double_text(chars[i], i);
            let v = self.make(
                name.as_str(),
                self.tld.as_str(),
                VariantKind::DoubleChar,
                technique.as_str(),
            );
            proof {
                lemma_views_push(out@, v);
            }
            out.push(v);
            i = i + 1;
            assert(views(out@) =~= concat_upto(f, i as int));
        }
        out
    }

    /// Replace each character with its QWERTY-adjacent keys.
    pub fn keyboard_adjacent(&self) -> (out: Vec<DomainVariant>)
        ensures
            views(out@) == keyboard_adjacent_spec(self@.0, self@.1),
    {
        let chars = chars_of(self.name.as_str());
        let n = chars.len();
        let ghost f = keyboard_fn(self@.0, self@.1);
        let mut out: Vec<DomainVariant> = Vec::new();
        let mut i: usize = 0;
        while i < n
            invariant
                chars@ == self@.0,
                n == chars@.len(),
                i <= n,
                f == keyboard_fn(self@.0, self@.1),
                views(out@) == concat_upto(f, i as int),
            decreases n - i,
        {
            let key = chars[i];
            let neighbours = keyboard_neighbour_list(key);
            let ghost g = key_neighbour_fn(self@.0, self@.1, i as int);
            let ghost before = views(out@);
            let mut m: usize = 0;
            while m < neighbours.len()
                invariant
                    chars@ == self@.0,
                    n == chars@.len(),
                    i < n,
                    key == chars@[i as int],
                    neighbours@ == keyboard_neighbours(key),
                    m <= neighbours@.len(),
                    g == key_neighbour_fn(self@.0, self@.1, i as int),
                    views(out@) == before + concat_upto(g, m as int),
                decreases neighbours@.len() - m,
            {
                let neighbour = neighbours[m];
                let mut name = String::new();
                push_range(&mut name, &chars, 0, i);
                string_push(&mut name, neighbour);
                push_range(&mut name, &chars, i + 1, n);
                assert(name@ =~= chars@.update(i as int, neighbour));
                let technique = key_text(key, neighbour, i);
                let v = self.make(
                    name.as_str(),
                    self.tld.as_str(),
                    VariantKind::KeyboardAdjacent,
                    technique.as_str(),
                );
                proof {
                    lemma_views_push(out@, v);
                }
                out.push(v);
                m = m + 1;
                assert(views(out@) =~= before + concat_upto(g, m as int));
            }
            i = i + 1;
            assert(views(out@) =~= concat_upto(f, i as int));
        }
        out
    }
}

} // verus!
