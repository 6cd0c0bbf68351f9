//! The normalizer: collapses inconsequential textual differences between
//! two build outputs, so that the equivalence decision ignores formatting
//! noise.  The passes run in a fixed order.

use vstd::prelude::*;
use crate::rules::{apply_from, collapse_nl_match_at, run_rule, run_rule_spec, Rule, RuleView};
use crate::text::{
    lemma_replace_absent, lemma_replace_keeps_absence, lemma_run_end_props, lit, replace_lit,
    replace_lit_spec, run_end, CharClass,
};

verus! {

/// Folding of typographic quotes and the ellipsis to their plain
/// equivalents.
pub open spec fn fold_quotes_spec(x: Seq<char>) -> Seq<char> {
    let a1 = replace_lit_spec(x, "\u{2018}"@, "'"@);
    let a2 = replace_lit_spec(a1, "\u{2019}"@, "'"@);
    let a3 = replace_lit_spec(a2, "\u{201c}"@, "\""@);
    let a4 = replace_lit_spec(a3, "\u{201d}"@, "\""@);
    replace_lit_spec(a4, "\u{2026}"@, "..."@)
}

/// The whole normalization: quote folding, newline collapsing, canonical
/// line breaks around tag boundaries, and the targeted paragraph and
/// code-block fixups, in their published order.
#[verifier::opaque]
pub open spec fn normalize_spec(x: Seq<char>) -> Seq<char> {
    let a5 = fold_quotes_spec(x);
    let a6 = run_rule_spec(RuleView::CollapseNl, a5);
    let a7 = run_rule_spec(RuleView::WsAngle, a6);
    let a8 = run_rule_spec(RuleView::GtWs, a7);
    let a9 = run_rule_spec(RuleView::ProgOpenFix, a8);
    let a10 = run_rule_spec(RuleView::ProgCloseFix, a9);
    let a11 = run_rule_spec(RuleView::ParaParaFix, a10);
    let a12 = replace_lit_spec(a11, "\n<para>"@, "<para>"@);
    let a13 = replace_lit_spec(a12, "</para>\n"@, "</para>"@);
    let a14 = replace_lit_spec(a13, "<citerefentry>\n"@, "<citerefentry>"@);
    let a15 = replace_lit_spec(a14, "</refentrytitle>\n"@, "</refentrytitle>"@);
    let a16 = replace_lit_spec(a15, "</manvolnum>\n"@, "</manvolnum>"@);
    run_rule_spec(RuleView::CiteLinkFix, a16)
}

/// The quote-folding pass of the normalizer is idempotent: folding an
/// already-folded text changes nothing, because folding removes every
/// typographic character and introduces none.
pub proof fn lemma_fold_quotes_idempotent(x: Seq<char>)
    ensures
        fold_quotes_spec(fold_quotes_spec(x)) == fold_quotes_spec(x),
{
    reveal_strlit("\u{2018}");
    reveal_strlit("\u{2019}");
    reveal_strlit("\u{201c}");
    reveal_strlit("\u{201d}");
    reveal_strlit("\u{2026}");
    reveal_strlit("'");
    reveal_strlit("\"");
    reveal_strlit("...");
    let p1 = "\u{2018}"@;
    let p2 = "\u{2019}"@;
    let p3 = "\u{201c}"@;
    let p4 = "\u{201d}"@;
    let p5 = "\u{2026}"@;
    let r1 = "'"@;
    let r3 = "\""@;
    let r5 = "..."@;
    let a1 = replace_lit_spec(x, p1, r1);
    let a2 = replace_lit_spec(a1, p2, r1);
    let a3 = replace_lit_spec(a2, p3, r3);
    let a4 = replace_lit_spec(a3, p4, r3);
    let a5 = replace_lit_spec(a4, p5, r5);
    lemma_replace_keeps_absence(x, p1, r1, '\u{2018}');
    lemma_replace_keeps_absence(a1, p2, r1, '\u{2018}');
    lemma_replace_keeps_absence(a1, p2, r1, '\u{2019}');
    lemma_replace_keeps_absence(a2, p3, r3, '\u{2018}');
    lemma_replace_keeps_absence(a2, p3, r3, '\u{2019}');
    lemma_replace_keeps_absence(a2, p3, r3, '\u{201c}');
    lemma_replace_keeps_absence(a3, p4, r3, '\u{2018}');
    lemma_replace_keeps_absence(a3, p4, r3, '\u{2019}');
    lemma_replace_keeps_absence(a3, p4, r3, '\u{201c}');
    lemma_replace_keeps_absence(a3, p4, r3, '\u{201d}');
    lemma_replace_keeps_absence(a4, p5, r5, '\u{2018}');
    lemma_replace_keeps_absence(a4, p5, r5, '\u{2019}');
    lemma_replace_keeps_absence(a4, p5, r5, '\u{201c}');
    lemma_replace_keeps_absence(a4, p5, r5, '\u{201d}');
    lemma_replace_keeps_absence(a4, p5, r5, '\u{2026}');
    lemma_replace_absent(a5, p1, r1);
    lemma_replace_absent(a5, p2, r1);
    lemma_replace_absent(a5, p3, r3);
    lemma_replace_absent(a5, p4, r3);
    lemma_replace_absent(a5, p5, r5);
}

/// No two adjacent newlines.
pub open spec fn no_newline_runs(s: Seq<char>) -> bool {
    forall|j: int| 0 <= j && j + 1 < s.len() ==> !((#[trigger] s[j]) == '\n' && s[j + 1] == '\n')
}

proof fn lemma_collapse_shape(s: Seq<char>, i: int, bol: bool)
    requires
        0 <= i <= s.len(),
    ensures
        ({
            let r = apply_from(RuleView::CollapseNl, s, i, bol);
            &&& no_newline_runs(r)
            &&& (i < s.len() ==> r.len() > 0 && r[0] == s[i])
            &&& (i >= s.len() ==> r.len() == 0)
        }),
    decreases s.len() - i,
{
    reveal_strlit("\n");
    if i >= s.len() {
    } else if s[i] == '\n' {
        lemma_run_end_props(s, i, CharClass::Newline);
        let end = run_end(s, i, CharClass::Newline);
        assert(run_end(s, i, CharClass::Newline) == run_end(s, i + 1, CharClass::Newline));
        lemma_run_end_props(s, i + 1, CharClass::Newline);
        lemma_collapse_shape(s, end, s[end - 1] == '\n');
        let rest = apply_from(RuleView::CollapseNl, s, end, s[end - 1] == '\n');
        assert(collapse_nl_match_at(s, i) == Some((end, "\n"@)));
        let r = apply_from(RuleView::CollapseNl, s, i, bol);
        assert(r == "\n"@ + rest);
        assert(r[0] == s[i]);
        assert forall|j: int|
            0 <= j && j + 1 < r.len() implies !((#[trigger] r[j]) == '\n' && r[j + 1]
            == '\n') by {
            if j == 0 {
                assert(r[1] == rest[0]);
                assert(rest.len() > 0);
                assert(end < s.len());
                assert(rest[0] == s[end]);
            } else {
                assert(r[j] == rest[j - 1]);
                assert(r[j + 1] == rest[j]);
            }
        }
    } else {
        lemma_collapse_shape(s, i + 1, s[i] == '\n');
        let rest = apply_from(RuleView::CollapseNl, s, i + 1, s[i] == '\n');
        assert(collapse_nl_match_at(s, i) is None);
        let r = apply_from(RuleView::CollapseNl, s, i, bol);
        assert(r == seq![s[i]] + rest);
        assert forall|j: int|
            0 <= j && j + 1 < r.len() implies !((#[trigger] r[j]) == '\n' && r[j + 1]
            == '\n') by {
            if j == 0 {
                assert(r[0] == s[i]);
            } else {
                assert(r[j] == rest[j - 1]);
                assert(r[j + 1] == rest[j]);
            }
        }
    }
}

proof fn lemma_collapse_id_from(s: Seq<char>, i: int, bol: bool)
    requires
        no_newline_runs(s),
        0 <= i <= s.len(),
    ensures
        apply_from(RuleView::CollapseNl, s, i, bol) == s.subrange(i, s.len() as int),
    decreases s.len() - i,
{
    reveal_strlit("\n");
    if i >= s.len() {
        assert(apply_from(RuleView::CollapseNl, s, i, bol) =~= s.subrange(i, s.len() as int));
    } else if s[i] == '\n' {
        assert(run_end(s, i, CharClass::Newline) == run_end(s, i + 1, CharClass::Newline));
        if i + 1 < s.len() {
            assert(s[i + 1] != '\n');
            assert(run_end(s, i + 1, CharClass::Newline) == i + 1);
        } else {
            assert(run_end(s, i + 1, CharClass::Newline) == i + 1);
        }
        assert(collapse_nl_match_at(s, i) == Some((i + 1, "\n"@)));
        lemma_collapse_id_from(s, i + 1, true);
        assert("\n"@ + s.subrange(i + 1, s.len() as int) =~= s.subrange(i, s.len() as int));
    } else {
        assert(collapse_nl_match_at(s, i) is None);
        lemma_collapse_id_from(s, i + 1, s[i] == '\n');
        assert(seq![s[i]] + s.subrange(i + 1, s.len() as int) =~= s.subrange(i, s.len() as int));
    }
}

/// The newline-collapsing pass of the normalizer is idempotent: one pass
/// leaves no adjacent newlines, and on such a text a pass copies its
/// input unchanged.
pub proof fn lemma_collapse_nl_idempotent(x: Seq<char>)
    ensures
        run_rule_spec(RuleView::CollapseNl, run_rule_spec(RuleView::CollapseNl, x))
            == run_rule_spec(RuleView::CollapseNl, x),
{
    let once = run_rule_spec(RuleView::CollapseNl, x);
    lemma_collapse_shape(x, 0, true);
    lemma_collapse_id_from(once, 0, true);
    assert(once.subrange(0, once.len() as int) =~= once);
}

/// Folds typographic quotes and the ellipsis.
pub fn fold_quotes(x: &Vec<char>) -> (r: Vec<char>)
    ensures
        r@ == fold_quotes_spec(x@),
{
    let a1 = replace_lit(x, &lit("\u{2018}"), &lit("'"));
    let a2 = replace_lit(&a1, &lit("\u{2019}"), &lit("'"));
    let a3 = replace_lit(&a2, &lit("\u{201c}"), &lit("\""));
    let a4 = replace_lit(&a3, &lit("\u{201d}"), &lit("\""));
    replace_lit(&a4, &lit("\u{2026}"), &lit("..."))
}

/// Filters out inconsequential differences from a build output.
pub fn normalize(x: &Vec<char>) -> (r: Vec<char>)
    ensures
        r@ == normalize_spec(x@),
{
    proof {
        reveal(normalize_spec);
    }
    let a5 = fold_quotes(x);
    let a6 = run_rule(&Rule::CollapseNl, &a5);
    let a7 = run_rule(&Rule::WsAngle, &a6);
    let a8 = run_rule(&Rule::GtWs, &a7);
    let a9 = run_rule(&Rule::ProgOpenFix, &a8);
    let a10 = run_rule(&Rule::ProgCloseFix, &a9);
    let a11 = run_rule(&Rule::ParaParaFix, &a10);
    let a12 = replace_lit(&a11, &lit("\n<para>"), &lit("<para>"));
    let a13 = replace_lit(&a12, &lit("</para>\n"), &lit("</para>"));
    let a14 = replace_lit(&a13, &lit("<citerefentry>\n"), &lit("<citerefentry>"));
    let a15 = replace_lit(&a14, &lit("</refentrytitle>\n"), &lit("</refentrytitle>"));
    let a16 = replace_lit(&a15, &lit("</manvolnum>\n"), &lit("</manvolnum>"));
    run_rule(&Rule::CiteLinkFix, &a16)
}

} // verus!
