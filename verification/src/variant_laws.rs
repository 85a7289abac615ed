//! What holds of every list that `TypoGenerator::generate_all` returns.
use vstd::prelude::*;
use crate::typo::{
    all_variants, kind_label, bit_fn, bit_squat_fn, candidates, concat_upto, double_fn, first_per_fqdn,
    has_fqdn, homoglyph_fn, homoglyph_repl_fn, hyphen_fn, insert_letter_fn, insertion_fn,
    join_dot, key_neighbour_fn, keyboard_adjacent_spec, keyboard_fn, letter, omission_fn,
    subdomain_fn, substitute_note, substitutions_spec,
    substitute_letter_fn, substitution_fn, tld_swap_fn, transposition_fn, variant_of,
    without_fqdn, VariantKind, VariantView,
};
use crate::tables::keyboard_neighbours;
use crate::text::{decimal, lowercase_of};
use vstd::utf8::encode_utf8;

verus! {

/// No two elements of `s` share an FQDN.
pub open spec fn distinct_fqdns(s: Seq<VariantView>) -> bool {
    forall|i: int, j: int| 0 <= i < j < s.len() ==> s[i].fqdn != s[j].fqdn
}

/// `v` is, among the elements of `s`, the first one with its FQDN.
pub open spec fn first_with_fqdn_in(s: Seq<VariantView>, v: VariantView) -> bool {
    exists|j: int|
        0 <= j < s.len() && s[j] == v && forall|k: int| 0 <= k < j ==> s[k].fqdn != v.fqdn
}

/// Every FQDN is the label, a dot and the TLD.
pub open spec fn well_formed(s: Seq<VariantView>) -> bool {
    forall|i: int| 0 <= i < s.len() ==> s[i].fqdn == join_dot(#[trigger] s[i].name, s[i].tld)
}

proof fn lemma_first_per_fqdn(s: Seq<VariantView>)
    ensures
        distinct_fqdns(first_per_fqdn(s)),
        forall|i: int|
            0 <= i < first_per_fqdn(s).len() ==> first_with_fqdn_in(s, #[trigger] first_per_fqdn(s)[i]),
        forall|j: int| 0 <= j < s.len() ==> has_fqdn(first_per_fqdn(s), #[trigger] s[j].fqdn),
    decreases s.len(),
{
    if s.len() > 0 {
        let p = s.drop_last();
        let kept = first_per_fqdn(p);
        lemma_first_per_fqdn(p);
        let d = first_per_fqdn(s);
        assert forall|i: int| 0 <= i < d.len() implies first_with_fqdn_in(s, #[trigger] d[i]) by {
            if i < kept.len() {
                assert(d[i] == kept[i]);
                assert(first_with_fqdn_in(p, kept[i]));
                let j = choose|j: int|
                    0 <= j < p.len() && p[j] == kept[i] && forall|k: int|
                        0 <= k < j ==> p[k].fqdn != kept[i].fqdn;
                assert(s[j] == p[j]);
                assert forall|k: int| 0 <= k < j implies s[k].fqdn != d[i].fqdn by {
                    assert(s[k] == p[k]);
                }
            } else {
                assert(d[i] == s.last());
                assert(!has_fqdn(kept, s.last().fqdn));
                assert forall|k: int| 0 <= k < s.len() - 1 implies s[k].fqdn != d[i].fqdn by {
                    assert(s[k] == p[k]);
                    assert(has_fqdn(kept, p[k].fqdn));
                }
            }
        }
        assert forall|j: int| 0 <= j < s.len() implies has_fqdn(d, #[trigger] s[j].fqdn) by {
            if j < s.len() - 1 {
                assert(s[j] == p[j]);
                assert(has_fqdn(kept, p[j].fqdn));
                let i = choose|i: int| 0 <= i < kept.len() && kept[i].fqdn == p[j].fqdn;
                assert(d[i] == kept[i]);
            } else {
                if has_fqdn(kept, s.last().fqdn) {
                    let i = choose|i: int| 0 <= i < kept.len() && kept[i].fqdn == s.last().fqdn;
                    assert(d[i] == kept[i]);
                } else {
                    assert(d[d.len() - 1] == s.last());
                }
            }
        }
        if !has_fqdn(kept, s.last().fqdn) {
            assert forall|i: int, j: int| 0 <= i < j < d.len() implies d[i].fqdn != d[j].fqdn by {
                if j == d.len() - 1 {
                    assert(d[i] == kept[i]);
                } else {
                    assert(d[i] == kept[i]);
                    assert(d[j] == kept[j]);
                }
            }
        }
    }
}

proof fn lemma_without_fqdn(d: Seq<VariantView>, f: Seq<char>)
    ensures
        forall|i: int| 0 <= i < without_fqdn(d, f).len() ==> (#[trigger] without_fqdn(d, f)[i]).fqdn != f,
        forall|i: int|
            0 <= i < without_fqdn(d, f).len() ==> exists|k: int|
                0 <= k < d.len() && d[k] == #[trigger] without_fqdn(d, f)[i],
        forall|k: int|
            0 <= k < d.len() && (#[trigger] d[k]).fqdn != f ==> exists|i: int|
                0 <= i < without_fqdn(d, f).len() && without_fqdn(d, f)[i] == d[k],
        distinct_fqdns(d) ==> distinct_fqdns(without_fqdn(d, f)),
    decreases d.len(),
{
    if d.len() > 0 {
        let p = d.drop_last();
        let kept = without_fqdn(p, f);
        lemma_without_fqdn(p, f);
        let w = without_fqdn(d, f);
        assert forall|i: int| 0 <= i < w.len() implies (#[trigger] w[i]).fqdn != f by {
            if i < kept.len() {
                assert(w[i] == kept[i]);
            }
        }
        assert forall|i: int| 0 <= i < w.len() implies exists|k: int|
            0 <= k < d.len() && d[k] == #[trigger] w[i] by {
            if i < kept.len() {
                assert(w[i] == kept[i]);
                let k = choose|k: int| 0 <= k < p.len() && p[k] == kept[i];
                assert(d[k] == p[k]);
            } else {
                assert(d[d.len() - 1] == w[i]);
            }
        }
        assert forall|k: int| 0 <= k < d.len() && (#[trigger] d[k]).fqdn != f implies exists|i: int|
            0 <= i < w.len() && w[i] == d[k] by {
            if k < d.len() - 1 {
                assert(d[k] == p[k]);
                let i = choose|i: int| 0 <= i < kept.len() && kept[i] == p[k];
                assert(w[i] == kept[i]);
            } else {
                assert(w[w.len() - 1] == d[k]);
            }
        }
        if distinct_fqdns(d) {
            assert(distinct_fqdns(p));
            assert forall|i: int, j: int| 0 <= i < j < w.len() implies w[i].fqdn != w[j].fqdn by {
                assert(w[i] == kept[i]);
                if j < kept.len() {
                    assert(w[j] == kept[j]);
                } else {
                    let k = choose|k: int| 0 <= k < p.len() && p[k] == kept[i];
                    assert(d[k] == p[k]);
                    assert(w[j] == d[d.len() - 1]);
                }
            }
        }
    }
}

/// No FQDN occurs twice among the variants `generate_all` returns.
pub proof fn law_no_duplicate_fqdns(name: Seq<char>, tld: Seq<char>)
    ensures
        distinct_fqdns(all_variants(name, tld)),
{
    lemma_first_per_fqdn(candidates(name, tld));
    lemma_without_fqdn(first_per_fqdn(candidates(name, tld)), join_dot(name, tld));
}

/// The brand's own domain is never among the variants `generate_all` returns.
pub proof fn law_excludes_brand_domain(name: Seq<char>, tld: Seq<char>)
    ensures
        forall|i: int|
            0 <= i < all_variants(name, tld).len() ==> (#[trigger] all_variants(name, tld)[i]).fqdn
                != join_dot(name, tld),
{
    lemma_without_fqdn(first_per_fqdn(candidates(name, tld)), join_dot(name, tld));
}

/// Each variant `generate_all` returns is a generated candidate, and the
/// first candidate with its FQDN.
pub proof fn law_first_candidate_kept(name: Seq<char>, tld: Seq<char>)
    ensures
        forall|i: int|
            0 <= i < all_variants(name, tld).len() ==> first_with_fqdn_in(
                candidates(name, tld),
                #[trigger] all_variants(name, tld)[i],
            ),
{
    let c = candidates(name, tld);
    let d = first_per_fqdn(c);
    lemma_first_per_fqdn(c);
    lemma_without_fqdn(d, join_dot(name, tld));
    assert forall|i: int| 0 <= i < all_variants(name, tld).len() implies first_with_fqdn_in(
        c,
        #[trigger] all_variants(name, tld)[i],
    ) by {
        let k = choose|k: int| 0 <= k < d.len() && d[k] == all_variants(name, tld)[i];
        assert(first_with_fqdn_in(c, d[k]));
    }
}

/// Every generated candidate other than the brand's own domain is
/// represented: some returned variant has its FQDN.
pub proof fn law_every_candidate_represented(name: Seq<char>, tld: Seq<char>)
    ensures
        forall|j: int|
            0 <= j < candidates(name, tld).len() && (#[trigger] candidates(name, tld)[j]).fqdn
                != join_dot(name, tld) ==> has_fqdn(all_variants(name, tld), candidates(name, tld)[j].fqdn),
{
    let c = candidates(name, tld);
    let d = first_per_fqdn(c);
    let f = join_dot(name, tld);
    lemma_first_per_fqdn(c);
    lemma_without_fqdn(d, f);
    assert forall|j: int| 0 <= j < c.len() && (#[trigger] c[j]).fqdn != f implies has_fqdn(
        all_variants(name, tld),
        c[j].fqdn,
    ) by {
        assert(has_fqdn(d, c[j].fqdn));
        let k = choose|k: int| 0 <= k < d.len() && d[k].fqdn == c[j].fqdn;
        let i = choose|i: int|
            0 <= i < without_fqdn(d, f).len() && without_fqdn(d, f)[i] == d[k];
        assert(all_variants(name, tld)[i].fqdn == c[j].fqdn);
    }
}

/// The generator never comes back empty: the label with an `a` in front,
/// under the same TLD, is always among the variants.
pub proof fn law_never_empty(name: Seq<char>, tld: Seq<char>)
    ensures
        has_fqdn(all_variants(name, tld), join_dot(seq!['a'] + name, tld)),
        all_variants(name, tld).len() > 0,
{
    let c = candidates(name, tld);
    let ins = insertion_fn(name, tld);
    let g = insert_letter_fn(name, tld, 0);
    let v = variant_of(name.take(0) + seq![letter(0)] + name.skip(0), tld, VariantKind::Insertion,
        crate::typo::insert_note(letter(0), 0));
    assert(letter(0) == 'a');
    assert(name.take(0) + seq![letter(0)] + name.skip(0) =~= seq!['a'] + name);
    // the first insertion is the first element of `insertions_spec`
    assert(concat_upto(g, 1) =~= seq![v]) by {
        assert(concat_upto(g, 0) =~= Seq::<VariantView>::empty());
    }
    lemma_concat_prefix(g, 1, 26);
    assert(concat_upto(ins, 1) =~= concat_upto(g, 26)) by {
        assert(concat_upto(ins, 0) =~= Seq::<VariantView>::empty());
    }
    lemma_concat_prefix(ins, 1, name.len() + 1int);
    let t = crate::typo::transpositions_spec(name, tld) + crate::typo::omissions_spec(name, tld);
    let ins_all = crate::typo::insertions_spec(name, tld);
    assert(ins_all[0] == v);
    assert(c[t.len() as int] == v) by {
        assert(c == t + ins_all + (c.subrange((t.len() + ins_all.len()) as int, c.len() as int)));
    }
    assert(join_dot(seq!['a'] + name, tld) != join_dot(name, tld)) by {
        assert(join_dot(seq!['a'] + name, tld).len() != join_dot(name, tld).len());
    }
    law_every_candidate_represented(name, tld);
    assert(c[t.len() as int].fqdn == join_dot(seq!['a'] + name, tld));
}

/// `concat_upto(f, k)` is a prefix of `concat_upto(f, m)` for `k <= m`.
proof fn lemma_concat_prefix(f: spec_fn(int) -> Seq<VariantView>, k: int, m: int)
    requires
        0 <= k <= m,
    ensures
        concat_upto(f, k).len() <= concat_upto(f, m).len(),
        forall|i: int| 0 <= i < concat_upto(f, k).len() ==> concat_upto(f, m)[i] == concat_upto(f, k)[i],
    decreases m - k,
{
    if k < m {
        lemma_concat_prefix(f, k, m - 1);
    }
}

/// Every FQDN is the label, a dot and the TLD, and every kind is one the
/// generators produce.
spec fn shaped(s: Seq<VariantView>) -> bool {
    forall|i: int|
        0 <= i < s.len() ==> s[i].fqdn == join_dot(#[trigger] s[i].name, s[i].tld) && s[i].kind
            != VariantKind::AddedDash && s[i].kind != VariantKind::AddedDot
}

proof fn lemma_concat_shaped(f: spec_fn(int) -> Seq<VariantView>, k: int)
    requires
        forall|i: int| 0 <= i < k ==> shaped(#[trigger] f(i)),
    ensures
        shaped(concat_upto(f, k)),
    decreases k,
{
    if k > 0 {
        lemma_concat_shaped(f, k - 1);
        let a = concat_upto(f, k - 1);
        let b = f(k - 1);
        assert(shaped(b));
        assert forall|i: int| 0 <= i < (a + b).len() implies (a + b)[i].fqdn == join_dot(
            #[trigger] (a + b)[i].name,
            (a + b)[i].tld,
        ) && (a + b)[i].kind != VariantKind::AddedDash && (a + b)[i].kind != VariantKind::AddedDot by {
            if i < a.len() {
                assert((a + b)[i] == a[i]);
            } else {
                assert((a + b)[i] == b[i - a.len()]);
            }
        }
    }
}

proof fn lemma_add_shaped(a: Seq<VariantView>, b: Seq<VariantView>)
    requires
        shaped(a),
        shaped(b),
    ensures
        shaped(a + b),
{
    assert forall|i: int| 0 <= i < (a + b).len() implies (a + b)[i].fqdn == join_dot(
        #[trigger] (a + b)[i].name,
        (a + b)[i].tld,
    ) && (a + b)[i].kind != VariantKind::AddedDash && (a + b)[i].kind != VariantKind::AddedDot by {
        if i < a.len() {
            assert((a + b)[i] == a[i]);
            assert(a[i].fqdn == join_dot(a[i].name, a[i].tld));
        } else {
            let j = i - a.len();
            assert((a + b)[i] == b[j]);
            assert(b[j].fqdn == join_dot(b[j].name, b[j].tld));
        }
    }
    assert(shaped(a + b));
}

proof fn lemma_candidates_shaped(name: Seq<char>, tld: Seq<char>)
    ensures
        shaped(candidates(name, tld)),
{
    lemma_concat_shaped(transposition_fn(name, tld), name.len() - 1);
    lemma_concat_shaped(omission_fn(name, tld), name.len() as int);
    assert forall|i: int| 0 <= i < name.len() + 1 implies shaped(
        #[trigger] insertion_fn(name, tld)(i),
    ) by {
        lemma_concat_shaped(insert_letter_fn(name, tld, i), 26);
    }
    lemma_concat_shaped(insertion_fn(name, tld), name.len() + 1int);
    assert forall|i: int| 0 <= i < name.len() implies shaped(
        #[trigger] substitution_fn(name, tld)(i),
    ) by {
        lemma_concat_shaped(substitute_letter_fn(name, tld, i), 26);
    }
    lemma_concat_shaped(substitution_fn(name, tld), name.len() as int);
    let lower = lowercase_of(name);
    assert forall|k: int| 0 <= k < crate::tables::homoglyph_keys().len() implies shaped(
        #[trigger] homoglyph_fn(lower, tld)(k),
    ) by {
        let o = crate::tables::homoglyph_keys()[k];
        lemma_concat_shaped(
            homoglyph_repl_fn(lower, tld, o),
            crate::tables::homoglyphs_of(o).len() as int,
        );
    }
    lemma_concat_shaped(
        homoglyph_fn(lower, tld),
        crate::tables::homoglyph_keys().len() as int,
    );
    let nbytes = vstd::utf8::encode_utf8(name).len() as int;
    assert forall|i: int| 0 <= i < nbytes implies shaped(#[trigger] bit_squat_fn(name, tld)(i)) by {
        lemma_concat_shaped(bit_fn(name, tld, i), 8);
    }
    lemma_concat_shaped(bit_squat_fn(name, tld), nbytes);
    lemma_concat_shaped(tld_swap_fn(name, tld), crate::tables::tld_table().len() as int);
    lemma_concat_shaped(subdomain_fn(name, tld), crate::tables::prefix_table().len() as int);
    lemma_concat_shaped(hyphen_fn(name, tld), name.len() as int);
    lemma_concat_shaped(double_fn(name, tld), name.len() as int);
    assert forall|i: int| 0 <= i < name.len() implies shaped(#[trigger] keyboard_fn(name, tld)(i)) by {
        lemma_concat_shaped(
            key_neighbour_fn(name, tld, i),
            crate::tables::keyboard_neighbours(name[i]).len() as int,
        );
    }
    lemma_concat_shaped(keyboard_fn(name, tld), name.len() as int);
    let t = crate::typo::transpositions_spec(name, tld);
    let o = crate::typo::omissions_spec(name, tld);
    let ins = crate::typo::insertions_spec(name, tld);
    let sub = crate::typo::substitutions_spec(name, tld);
    let h = crate::typo::homoglyphs_spec(name, tld);
    let b = crate::typo::bit_squats_spec(name, tld);
    let ts = crate::typo::tld_swaps_spec(name, tld);
    let sp = crate::typo::subdomain_prefixes_spec(name, tld);
    let hy = crate::typo::hyphen_insertions_spec(name, tld);
    let d = crate::typo::double_chars_spec(name, tld);
    let kb = crate::typo::keyboard_adjacent_spec(name, tld);
    lemma_add_shaped(t, o);
    lemma_add_shaped(t + o, ins);
    lemma_add_shaped(t + o + ins, sub);
    lemma_add_shaped(t + o + ins + sub, h);
    lemma_add_shaped(t + o + ins + sub + h, b);
    lemma_add_shaped(t + o + ins + sub + h + b, ts);
    lemma_add_shaped(t + o + ins + sub + h + b + ts, sp);
    lemma_add_shaped(t + o + ins + sub + h + b + ts + sp, hy);
    lemma_add_shaped(t + o + ins + sub + h + b + ts + sp + hy, d);
    lemma_add_shaped(t + o + ins + sub + h + b + ts + sp + hy + d, kb);
}

/// Every variant `generate_all` returns has as FQDN its label, a dot and
/// its TLD.
pub proof fn law_fqdn_is_label_dot_tld(name: Seq<char>, tld: Seq<char>)
    ensures
        well_formed(all_variants(name, tld)),
{
    lemma_all_variants_shaped(name, tld);
}

/// No variant `generate_all` returns is tagged `AddedDash` or `AddedDot`:
/// no generator produces those categories.
pub proof fn law_only_generated_kinds(name: Seq<char>, tld: Seq<char>)
    ensures
        forall|i: int|
            0 <= i < all_variants(name, tld).len() ==> (#[trigger] all_variants(name, tld)[i]).kind
                != VariantKind::AddedDash && all_variants(name, tld)[i].kind != VariantKind::AddedDot,
{
    lemma_all_variants_shaped(name, tld);
    assert forall|i: int| 0 <= i < all_variants(name, tld).len() implies (#[trigger] all_variants(
        name,
        tld,
    )[i]).kind != VariantKind::AddedDash && all_variants(name, tld)[i].kind
        != VariantKind::AddedDot by {
        let r = all_variants(name, tld);
        assert(r[i].fqdn == join_dot(r[i].name, r[i].tld));
    }
}

proof fn lemma_all_variants_shaped(name: Seq<char>, tld: Seq<char>)
    ensures
        shaped(all_variants(name, tld)),
{
    lemma_candidates_shaped(name, tld);
    law_first_candidate_kept(name, tld);
    let c = candidates(name, tld);
    let r = all_variants(name, tld);
    assert forall|i: int| 0 <= i < r.len() implies r[i].fqdn == join_dot(#[trigger] r[i].name, r[i].tld)
        && r[i].kind != VariantKind::AddedDash && r[i].kind != VariantKind::AddedDot by {
        assert(first_with_fqdn_in(c, r[i]));
        let j = choose|j: int|
            0 <= j < c.len() && c[j] == r[i] && forall|k: int| 0 <= k < j ==> c[k].fqdn != r[i].fqdn;
        assert(c[j].fqdn == join_dot(c[j].name, c[j].tld));
    }
}

proof fn lemma_concat_member(f: spec_fn(int) -> Seq<VariantView>, k: int, x: VariantView)
    requires
        concat_upto(f, k).contains(x),
    ensures
        exists|j: int| 0 <= j < k && #[trigger] f(j).contains(x),
    decreases k,
{
    if k > 0 {
        let a = concat_upto(f, k - 1);
        let b = f(k - 1);
        let p = choose|p: int| 0 <= p < (a + b).len() && (a + b)[p] == x;
        if p < a.len() {
            assert(a[p] == x);
            lemma_concat_member(f, k - 1, x);
        } else {
            assert(b[p - a.len()] == x);
            assert(f(k - 1).contains(x));
        }
    }
}

proof fn lemma_concat_includes(f: spec_fn(int) -> Seq<VariantView>, k: int, j: int, x: VariantView)
    requires
        0 <= j < k,
        f(j).contains(x),
    ensures
        concat_upto(f, k).contains(x),
    decreases k,
{
    let a = concat_upto(f, k - 1);
    let b = f(k - 1);
    if j < k - 1 {
        lemma_concat_includes(f, k - 1, j, x);
        let p = choose|p: int| 0 <= p < a.len() && a[p] == x;
        assert((a + b)[p] == x);
    } else {
        let p = choose|p: int| 0 <= p < b.len() && b[p] == x;
        assert((a + b)[a.len() + p] == x);
    }
}

/// Every QWERTY neighbour is another lowercase letter.
proof fn lemma_keyboard_neighbour_is_letter(c: char, m: int)
    requires
        0 <= m < keyboard_neighbours(c).len(),
    ensures
        'a' <= keyboard_neighbours(c)[m] <= 'z',
        keyboard_neighbours(c)[m] != c,
        letter(keyboard_neighbours(c)[m] as int - 97) == keyboard_neighbours(c)[m],
{
    let nb = keyboard_neighbours(c)[m];
    assert(letter(0) == 'a' && letter(1) == 'b' && letter(2) == 'c' && letter(3) == 'd' && letter(4) == 'e'
        && letter(5) == 'f' && letter(6) == 'g' && letter(7) == 'h' && letter(8) == 'i' && letter(9) == 'j'
        && letter(10) == 'k' && letter(11) == 'l' && letter(12) == 'm' && letter(13) == 'n'
        && letter(14) == 'o' && letter(15) == 'p' && letter(16) == 'q' && letter(17) == 'r'
        && letter(18) == 's' && letter(19) == 't' && letter(20) == 'u' && letter(21) == 'v'
        && letter(22) == 'w' && letter(23) == 'x' && letter(24) == 'y' && letter(25) == 'z');
}

/// Every keyboard-neighbour variant has the FQDN of some substitution
/// variant of the same label: a QWERTY neighbour is always another
/// lowercase letter.
pub proof fn law_keyboard_variants_are_substitutions(name: Seq<char>, tld: Seq<char>)
    ensures
        forall|p: int|
            0 <= p < keyboard_adjacent_spec(name, tld).len() ==> has_fqdn(
                substitutions_spec(name, tld),
                (#[trigger] keyboard_adjacent_spec(name, tld)[p]).fqdn,
            ),
{
    let kb = keyboard_adjacent_spec(name, tld);
    let subs = substitutions_spec(name, tld);
    assert forall|p: int| 0 <= p < kb.len() implies has_fqdn(subs, (#[trigger] kb[p]).fqdn) by {
        let x = kb[p];
        assert(kb.contains(x));
        lemma_concat_member(keyboard_fn(name, tld), name.len() as int, x);
        let j = choose|j: int| 0 <= j < name.len() && #[trigger] keyboard_fn(name, tld)(j).contains(x);
        let nbs = keyboard_neighbours(name[j]);
        lemma_concat_member(key_neighbour_fn(name, tld, j), nbs.len() as int, x);
        let m = choose|m: int| 0 <= m < nbs.len() && #[trigger] key_neighbour_fn(name, tld, j)(m).contains(x);
        let nb = nbs[m];
        lemma_keyboard_neighbour_is_letter(name[j], m);
        let q = nb as int - 97;
        let v = variant_of(
            name.update(j, letter(q)),
            tld,
            VariantKind::Substitution,
            substitute_note(name[j], letter(q), j as nat),
        );
        assert(substitute_letter_fn(name, tld, j)(q) == seq![v]);
        assert(seq![v][0] == v);
        lemma_concat_includes(substitute_letter_fn(name, tld, j), 26, q, v);
        lemma_concat_includes(substitution_fn(name, tld), name.len() as int, j, v);
        let r = choose|r: int| 0 <= r < subs.len() && subs[r] == v;
        assert(key_neighbour_fn(name, tld, j)(m)[0] == x);
        assert(subs[r].fqdn == x.fqdn);
    }
}


/// Deleting any one character of the label, where at least two bytes are
/// left, gives an omission variant under the same TLD, noted with the
/// deleted character and its position; and `generate_all` returns a
/// variant with that FQDN.
pub proof fn law_each_character_omitted(name: Seq<char>, tld: Seq<char>, i: int)
    requires
        0 <= i < name.len(),
        encode_utf8(name.remove(i)).len() >= 2,
    ensures
        crate::typo::omissions_spec(name, tld).contains(
            VariantView {
                fqdn: name.remove(i) + seq!['.'] + tld,
                name: name.remove(i),
                tld,
                kind: VariantKind::Omission,
                technique: "omit char '"@ + seq![name[i]] + "' at position "@ + decimal(i as nat),
            },
        ),
        has_fqdn(all_variants(name, tld), name.remove(i) + seq!['.'] + tld),
{
    let shorter = name.take(i) + name.skip(i + 1);
    assert(shorter =~= name.remove(i));
    let v = variant_of(shorter, tld, VariantKind::Omission, crate::typo::omit_note(name[i], i as nat));
    let om_f = omission_fn(name, tld);
    assert(om_f(i) == seq![v]);
    assert(seq![v][0] == v);
    lemma_concat_includes(om_f, name.len() as int, i, v);
    let om = crate::typo::omissions_spec(name, tld);
    let t = crate::typo::transpositions_spec(name, tld);
    let c = candidates(name, tld);
    let r = choose|r: int| 0 <= r < om.len() && om[r] == v;
    assert(c[t.len() + r] == v) by {
        assert(c == t + om + (c.subrange((t.len() + om.len()) as int, c.len() as int)));
    }
    assert(join_dot(shorter, tld) != join_dot(name, tld)) by {
        assert(join_dot(shorter, tld).len() != join_dot(name, tld).len());
    }
    law_every_candidate_represented(name, tld);
    assert(c[t.len() + r].fqdn == join_dot(shorter, tld));
    assert(join_dot(shorter, tld) =~= name.remove(i) + seq!['.'] + tld);
}

/// Every omission variant is the label with exactly one character deleted,
/// at least two bytes long, under the same TLD.
pub proof fn law_omissions_are_single_deletions(name: Seq<char>, tld: Seq<char>)
    ensures
        forall|p: int|
            #![trigger crate::typo::omissions_spec(name, tld)[p]]
            0 <= p < crate::typo::omissions_spec(name, tld).len() ==> {
                let x = crate::typo::omissions_spec(name, tld)[p];
                &&& x.tld == tld
                &&& x.kind == VariantKind::Omission
                &&& encode_utf8(x.name).len() >= 2
                &&& exists|i: int| 0 <= i < name.len() && x.name == #[trigger] name.remove(i)
            },
{
    let om = crate::typo::omissions_spec(name, tld);
    assert forall|p: int| 0 <= p < om.len() implies {
        let x = #[trigger] om[p];
        &&& x.tld == tld
        &&& x.kind == VariantKind::Omission
        &&& encode_utf8(x.name).len() >= 2
        &&& exists|i: int| 0 <= i < name.len() && x.name == #[trigger] name.remove(i)
    } by {
        let x = om[p];
        assert(om.contains(x));
        lemma_concat_member(omission_fn(name, tld), name.len() as int, x);
        let i = choose|i: int| 0 <= i < name.len() && #[trigger] omission_fn(name, tld)(i).contains(x);
        assert(name.take(i) + name.skip(i + 1) =~= name.remove(i));
        assert(omission_fn(name, tld)(i)[0] == x);
        assert(x.name == name.remove(i));
    }
}

/// Distinct categories are shown under distinct labels, so no variant is
/// reported under another category's name.
pub proof fn law_labels_distinct(a: VariantKind, b: VariantKind)
    ensures
        a != b ==> kind_label(a) != kind_label(b),
{
    reveal_strlit("Transposition");
    reveal_strlit("Omission");
    reveal_strlit("Insertion");
    reveal_strlit("Substitution");
    reveal_strlit("Homoglyph / Punycode");
    reveal_strlit("Bit-squat");
    reveal_strlit("TLD Swap");
    reveal_strlit("Subdomain Prefix");
    reveal_strlit("Hyphen Insertion");
    reveal_strlit("Double Character");
    reveal_strlit("Keyboard Adjacent");
    reveal_strlit("Added Dash");
    reveal_strlit("Added Dot");
    if a != b && kind_label(a).len() == kind_label(b).len() {
        assert(kind_label(a)[0] != kind_label(b)[0] || kind_label(a)[2] != kind_label(b)[2]);
    }
}

} // verus!
